//! Verified string utilities: character-wise equality and search,
//! case-insensitive comparison through a trusted lowercasing primitive,
//! lexicographic ordering, sorted tag collection, comma joining, and
//! decimal integer parsing.

use vstd::prelude::*;
use vstd::string::*;

verus! {

/// Compares two string slices character by character.
pub fn str_eq(a: &str, b: &str) -> (r: bool)
    ensures
        r == (a@ == b@),
{
    let alen = a.unicode_len();
    let blen = b.unicode_len();
    if alen != blen {
        assert(a@ != b@);
        return false;
    }
    let mut i: usize = 0;
    while i < alen
        invariant
            0 <= i <= alen,
            alen == a@.len() && alen == b@.len(),
            forall|k: int| 0 <= k < i ==> a@[k] == b@[k],
        decreases alen - i,
    {
        if a.get_char(i) != b.get_char(i) {
            return false;
        }
        i += 1;
    }
    proof {
        assert(a@ =~= b@);
    }
    true
}

/// Whether a string slice contains the given character.
pub fn str_contains_char(s: &str, c: char) -> (r: bool)
    ensures
        r == s@.contains(c),
{
    let len = s.unicode_len();
    let mut i: usize = 0;
    while i < len
        invariant
            0 <= i <= len,
            len == s@.len(),
            forall|k: int| 0 <= k < i ==> s@[k] != c,
        decreases len - i,
    {
        if s.get_char(i) == c {
            return true;
        }
        i += 1;
    }
    false
}

/// The needle occurs in the haystack starting at position `i`.
pub open spec fn contains_at(hay: Seq<char>, needle: Seq<char>, i: int) -> bool {
    0 <= i && i + needle.len() <= hay.len() && hay.subrange(i, i + needle.len()) == needle
}

/// The needle occurs somewhere in the haystack (case-sensitive).
pub open spec fn spec_contains(hay: Seq<char>, needle: Seq<char>) -> bool {
    exists|i: int| contains_at(hay, needle, i)
}

/// Whether `hay` contains `needle` as a contiguous substring.
pub fn str_contains(hay: &str, needle: &str) -> (r: bool)
    ensures
        r == spec_contains(hay@, needle@),
{
    let hlen = hay.unicode_len();
    let nlen = needle.unicode_len();
    if nlen > hlen {
        assert(forall|i: int| !contains_at(hay@, needle@, i));
        return false;
    }
    if nlen == 0 {
        proof {
            assert(hay@.subrange(0, 0) =~= needle@);
            assert(contains_at(hay@, needle@, 0));
        }
        return true;
    }
    let mut i: usize = 0;
    while i <= hlen - nlen
        invariant
            0 <= i <= hlen - nlen + 1,
            0 < nlen <= hlen,
            hlen == hay@.len() && nlen == needle@.len(),
            forall|k: int| 0 <= k < i ==> !contains_at(hay@, needle@, k),
        decreases hlen - i,
    {
        let mut j: usize = 0;
        let mut ok = true;
        while j < nlen
            invariant
                0 <= j <= nlen,
                i + nlen <= hlen,
                hlen == hay@.len() && nlen == needle@.len(),
                ok ==> forall|k: int| 0 <= k < j ==> hay@[i + k] == needle@[k],
                !ok ==> !contains_at(hay@, needle@, i as int),
            decreases nlen - j,
        {
            if ok && hay.get_char(i + j) != needle.get_char(j) {
                proof {
                    let sub = hay@.subrange(i as int, i + nlen);
                    assert(sub[j as int] == hay@[i + j]);
                    assert(sub != needle@);
                }
                ok = false;
            }
            j += 1;
        }
        if ok {
            proof {
                assert(hay@.subrange(i as int, i + nlen) =~= needle@);
                assert(contains_at(hay@, needle@, i as int));
            }
            return true;
        }
        i += 1;
    }
    proof {
        assert forall|k: int| !contains_at(hay@, needle@, k) by {
            if k >= i {
                assert(k + needle@.len() > hay@.len());
            }
        }
    }
    false
}

/// The lowercase form that [`lowercase`] produces for the given characters.
pub uninterp spec fn lower_of(s: Seq<char>) -> Seq<char>;

/// Relies on `str::to_lowercase`: the result is a function of the input
/// characters alone.
#[verifier::external_body]
pub fn lowercase(s: &str) -> (r: String)
    ensures
        r@ == lower_of(s@),
{
    s.to_lowercase()
}

/// Case-insensitive string equality: both sides lowercased, then compared.
pub open spec fn eq_ci(a: Seq<char>, b: Seq<char>) -> bool {
    lower_of(a) == lower_of(b)
}

/// Compares two string slices case-insensitively.
pub fn str_eq_ci(a: &str, b: &str) -> (r: bool)
    ensures
        r == eq_ci(a@, b@),
{
    let la = lowercase(a);
    let lb = lowercase(b);
    la == lb
}

/// Strict lexicographic order on character sequences, by code point.
pub open spec fn lex_lt(a: Seq<char>, b: Seq<char>) -> bool
    decreases a.len(),
{
    if b.len() == 0 {
        false
    } else if a.len() == 0 {
        true
    } else if a[0] != b[0] {
        (a[0] as u32) < (b[0] as u32)
    } else {
        lex_lt(a.drop_first(), b.drop_first())
    }
}

/// Of two distinct sequences, one is lexicographically below the other.
pub proof fn lemma_lex_connected(a: Seq<char>, b: Seq<char>)
    ensures
        !lex_lt(a, b) && !lex_lt(b, a) ==> a == b,
    decreases a.len(),
{
    if !lex_lt(a, b) && !lex_lt(b, a) {
        if b.len() == 0 {
            assert(a.len() == 0);
            assert(a =~= b);
        } else if a.len() == 0 {
            assert(lex_lt(a, b));
        } else {
            assert((a[0] as u32) == (b[0] as u32));
            vstd::utf8::char_u32_cast(a[0], a[0] as u32);
            vstd::utf8::char_u32_cast(b[0], b[0] as u32);
            assert(a[0] == b[0]);
            lemma_lex_connected(a.drop_first(), b.drop_first());
            assert(a =~= Seq::empty().push(a[0]) + a.drop_first());
            assert(b =~= Seq::empty().push(b[0]) + b.drop_first());
        }
    }
}

/// Lexicographic order is transitive.
pub proof fn lemma_lex_transitive(a: Seq<char>, b: Seq<char>, c: Seq<char>)
    requires
        lex_lt(a, b),
        lex_lt(b, c),
    ensures
        lex_lt(a, c),
    decreases a.len(),
{
    if a.len() != 0 && b.len() != 0 && c.len() != 0 && a[0] == b[0] && b[0] == c[0] {
        lemma_lex_transitive(a.drop_first(), b.drop_first(), c.drop_first());
    }
}

/// Lexicographic order is irreflexive.
pub proof fn lemma_lex_irreflexive(a: Seq<char>)
    ensures
        !lex_lt(a, a),
    decreases a.len(),
{
    if a.len() != 0 {
        lemma_lex_irreflexive(a.drop_first());
    }
}

/// Compares two string slices lexicographically by code point.
pub fn str_lt(a: &str, b: &str) -> (r: bool)
    ensures
        r == lex_lt(a@, b@),
{
    let alen = a.unicode_len();
    let blen = b.unicode_len();
    let mut i: usize = 0;
    proof {
        assert(a@.skip(0) =~= a@);
        assert(b@.skip(0) =~= b@);
    }
    loop
        invariant
            0 <= i <= alen && i <= blen,
            alen == a@.len() && blen == b@.len(),
            lex_lt(a@, b@) == lex_lt(a@.skip(i as int), b@.skip(i as int)),
        decreases alen - i,
    {
        if i == blen {
            assert(b@.skip(i as int).len() == 0);
            return false;
        }
        if i == alen {
            assert(a@.skip(i as int).len() == 0 && b@.skip(i as int).len() != 0);
            return true;
        }
        let ca = a.get_char(i);
        let cb = b.get_char(i);
        assert(a@.skip(i as int)[0] == a@[i as int] && b@.skip(i as int)[0] == b@[i as int]);
        if ca != cb {
            return (ca as u32) < (cb as u32);
        }
        proof {
            assert(a@.skip(i as int).drop_first() =~= a@.skip(i + 1));
            assert(b@.skip(i as int).drop_first() =~= b@.skip(i + 1));
        }
        i += 1;
    }
}

/// The tag list holds the given character sequence.
pub open spec fn has_tag(tags: Seq<String>, s: Seq<char>) -> bool {
    exists|k: int| 0 <= k < tags.len() && tags[k]@ == s
}

/// The tag list is strictly ascending, hence free of duplicates.
pub open spec fn tags_sorted(tags: Seq<String>) -> bool {
    forall|i: int, j: int| 0 <= i < j < tags.len() ==> lex_lt(tags[i]@, tags[j]@)
}

/// A sequence of character sequences is strictly ascending, hence free of
/// duplicates.
pub open spec fn views_sorted(tags: Seq<Seq<char>>) -> bool {
    forall|i: int, j: int| 0 <= i < j < tags.len() ==> lex_lt(tags[i], tags[j])
}

/// A deterministic rendering: a strictly ascending sequence is determined
/// by its membership alone, so two sorted tag lists holding the same tags
/// are the same list.
pub proof fn lemma_sorted_views_unique(t1: Seq<Seq<char>>, t2: Seq<Seq<char>>)
    requires
        views_sorted(t1),
        views_sorted(t2),
        forall|s: Seq<char>|
            #![trigger t1.contains(s)]
            #![trigger t2.contains(s)]
            t1.contains(s) <==> t2.contains(s),
    ensures
        t1 == t2,
    decreases t1.len(),
{
    if t1.len() == 0 {
        if t2.len() != 0 {
            assert(t2.contains(t2[0]));
            let i = choose|i: int| 0 <= i < t1.len() && t1[i] == t2[0];
            assert(false);
        }
        assert(t1 =~= t2);
    } else {
        assert(t1.contains(t1[0]));
        assert(t2.contains(t1[0]));
        let j = choose|j: int| 0 <= j < t2.len() && t2[j] == t1[0];
        assert(t2.contains(t2[0]));
        assert(t1.contains(t2[0]));
        let i = choose|i: int| 0 <= i < t1.len() && t1[i] == t2[0];
        if t1[0] != t2[0] {
            assert(j != 0 && i != 0);
            assert(lex_lt(t2[0], t2[j]));
            assert(lex_lt(t1[0], t1[i]));
            lemma_lex_transitive(t1[0], t2[0], t1[0]);
            lemma_lex_irreflexive(t1[0]);
            assert(false);
        }
        let r1 = t1.drop_first();
        let r2 = t2.drop_first();
        assert forall|s: Seq<char>|
            #![trigger r1.contains(s)]
            #![trigger r2.contains(s)]
            r1.contains(s) <==> r2.contains(s) by {
            lemma_tail_membership(t1, s);
            lemma_tail_membership(t2, s);
        }
        assert(views_sorted(r1)) by {
            assert(forall|i: int, j: int|
                0 <= i < j < r1.len() ==> r1[i] == t1[i + 1] && r1[j] == t1[j + 1]);
        }
        assert(views_sorted(r2)) by {
            assert(forall|i: int, j: int|
                0 <= i < j < r2.len() ==> r2[i] == t2[i + 1] && r2[j] == t2[j + 1]);
        }
        lemma_sorted_views_unique(r1, r2);
        assert(t1.len() == t2.len());
        assert forall|k: int| 0 <= k < t1.len() implies t1[k] == t2[k] by {
            if k > 0 {
                assert(t1[k] == r1[k - 1] && t2[k] == r2[k - 1]);
            }
        }
        assert(t1 =~= t2);
    }
}

/// In a strictly ascending sequence, the tail holds exactly the members
/// other than the head.
proof fn lemma_tail_membership(t: Seq<Seq<char>>, s: Seq<char>)
    requires
        views_sorted(t),
        t.len() > 0,
    ensures
        t.drop_first().contains(s) <==> t.contains(s) && s != t[0],
{
    let r = t.drop_first();
    if r.contains(s) {
        let k = choose|k: int| 0 <= k < r.len() && r[k] == s;
        assert(t[k + 1] == s);
        assert(t.contains(s));
        assert(lex_lt(t[0], t[k + 1]));
        if s == t[0] {
            lemma_lex_irreflexive(s);
            assert(false);
        }
    }
    if t.contains(s) && s != t[0] {
        let k = choose|k: int| 0 <= k < t.len() && t[k] == s;
        assert(k != 0);
        assert(r[k - 1] == s);
        assert(r.contains(s));
    }
}

/// Inserts a tag into a sorted tag list, keeping it sorted and dropping
/// the tag if an equal one is already present.
pub fn insert_tag(tags: &mut Vec<String>, tag: String)
    requires
        tags_sorted(old(tags)@),
    ensures
        tags_sorted(final(tags)@),
        forall|s: Seq<char>| has_tag(final(tags)@, s) <==> has_tag(old(tags)@, s) || s == tag@,
{
    let ghost orig = tags@;
    let mut p: usize = 0;
    let mut stop = false;
    while !stop && p < tags.len()
        invariant
            0 <= p <= tags@.len(),
            tags@ == orig,
            tags_sorted(orig),
            forall|k: int| 0 <= k < p ==> lex_lt(orig[k]@, tag@),
            stop ==> p < tags@.len() && !lex_lt(orig[p as int]@, tag@),
        decreases tags@.len() - p + (if stop { 0int } else { 1int }),
    {
        if !str_lt(tags[p].as_str(), tag.as_str()) {
            stop = true;
        } else {
            p += 1;
        }
    }
    assert(p < orig.len() ==> !lex_lt(orig[p as int]@, tag@));
    if p < tags.len() {
        if str_eq(tags[p].as_str(), tag.as_str()) {
            proof {
                assert(has_tag(orig, tag@));
            }
            return;
        }
        proof {
            lemma_lex_connected(orig[p as int]@, tag@);
        }
    }
    proof {
        assert(p < orig.len() ==> lex_lt(tag@, orig[p as int]@));
        assert forall|j: int| p <= j < orig.len() implies lex_lt(tag@, orig[j]@) by {
            if j > p {
                lemma_lex_transitive(tag@, orig[p as int]@, orig[j]@);
            }
        }
    }
    let ghost tv = tag@;
    tags.insert(p, tag);
    proof {
        assert(tags@.len() == orig.len() + 1);
        assert(forall|k: int| 0 <= k < p ==> tags@[k] == orig[k]);
        assert(tags@[p as int]@ == tv);
        assert(forall|k: int| p < k < tags@.len() ==> tags@[k] == orig[k - 1]);
        assert forall|s: Seq<char>| has_tag(tags@, s) <==> has_tag(orig, s) || s == tv by {
            if has_tag(tags@, s) {
                let k = choose|k: int| 0 <= k < tags@.len() && tags@[k]@ == s;
                if k < p {
                    assert(0 <= k < orig.len() && orig[k]@ == s);
                    assert(has_tag(orig, s));
                } else if k == p {
                    assert(s == tv);
                } else {
                    assert(0 <= k - 1 < orig.len() && orig[k - 1]@ == s);
                    assert(has_tag(orig, s));
                }
            }
            if has_tag(orig, s) {
                let k = choose|k: int| 0 <= k < orig.len() && orig[k]@ == s;
                if k < p {
                    assert(0 <= k < tags@.len() && tags@[k]@ == s);
                } else {
                    assert(0 <= k + 1 < tags@.len() && tags@[k + 1]@ == s);
                }
                assert(has_tag(tags@, s));
            }
            if s == tv {
                assert(tags@[p as int]@ == s);
                assert(has_tag(tags@, s));
            }
        }
    }
}

/// What joining tags with a comma-space separator yields.
pub open spec fn spec_join_comma(tags: Seq<Seq<char>>) -> Seq<char>
    decreases tags.len(),
{
    if tags.len() == 0 {
        Seq::empty()
    } else if tags.len() == 1 {
        tags[0]
    } else {
        spec_join_comma(tags.drop_last()) + ", "@ + tags.last()
    }
}

/// Joins the tags into one string, separated by a comma and a space.
pub fn join_comma(tags: &Vec<String>) -> (r: String)
    ensures
        r@ == spec_join_comma(Seq::new(tags@.len(), |i: int| tags@[i]@)),
{
    let ghost views = Seq::new(tags@.len(), |i: int| tags@[i]@);
    let mut out = String::new();
    let mut i: usize = 0;
    while i < tags.len()
        invariant
            0 <= i <= tags@.len(),
            views == Seq::new(tags@.len(), |k: int| tags@[k]@),
            out@ == spec_join_comma(views.take(i as int)),
        decreases tags@.len() - i,
    {
        if i > 0 {
            out.append(", ");
        }
        out.append(tags[i].as_str());
        proof {
            let t = views.take(i + 1);
            assert(t.drop_last() =~= views.take(i as int));
            assert(t.last() == views[i as int]);
            if i == 0 {
                assert(out@ =~= spec_join_comma(t));
            }
        }
        i += 1;
    }
    proof {
        assert(views.take(tags@.len() as int) =~= views);
    }
    out
}

/// The character is a decimal digit.
pub open spec fn is_digit(c: char) -> bool {
    48 <= c as u32 <= 57
}

/// The numeric value of a decimal digit character.
pub open spec fn digit_val(c: char) -> int {
    c as u32 - 48
}

/// Every character of the sequence is a decimal digit.
pub open spec fn all_digits(s: Seq<char>) -> bool {
    forall|i: int| 0 <= i < s.len() ==> is_digit(s[i])
}

/// The value of a sequence of decimal digits, most significant first.
pub open spec fn digits_val(s: Seq<char>) -> int
    decreases s.len(),
{
    if s.len() == 0 {
        0
    } else {
        digits_val(s.drop_last()) * 10 + digit_val(s.last())
    }
}

/// The digit part of an integer literal: everything after an optional sign.
pub open spec fn int_digits(s: Seq<char>) -> Seq<char> {
    if s.len() > 0 && (s[0] == '+' || s[0] == '-') {
        s.drop_first()
    } else {
        s
    }
}

/// The integer literal carries a minus sign.
pub open spec fn int_negative(s: Seq<char>) -> bool {
    s.len() > 0 && s[0] == '-'
}

/// The sequence is a well-formed decimal integer literal: an optional
/// sign followed by at least one digit.
pub open spec fn valid_int_str(s: Seq<char>) -> bool {
    int_digits(s).len() > 0 && all_digits(int_digits(s))
}

/// The mathematical value of a well-formed decimal integer literal.
pub open spec fn spec_int_val(s: Seq<char>) -> int {
    if int_negative(s) {
        -digits_val(int_digits(s))
    } else {
        digits_val(int_digits(s))
    }
}

/// A digit string has a non-negative value.
pub proof fn lemma_digits_val_nonneg(s: Seq<char>)
    requires
        all_digits(s),
    ensures
        digits_val(s) >= 0,
    decreases s.len(),
{
    if s.len() != 0 {
        assert(all_digits(s.drop_last()));
        lemma_digits_val_nonneg(s.drop_last());
    }
}

/// Dropping trailing digits never increases a digit string's value.
pub proof fn lemma_digits_val_prefix_le(s: Seq<char>, i: int)
    requires
        all_digits(s),
        0 <= i <= s.len(),
    ensures
        digits_val(s.take(i)) <= digits_val(s),
    decreases s.len() - i,
{
    if i == s.len() {
        assert(s.take(i) =~= s);
    } else {
        lemma_digits_val_prefix_le(s, i + 1);
        let t = s.take(i + 1);
        assert(t.drop_last() =~= s.take(i));
        assert(all_digits(s.take(i)));
        lemma_digits_val_nonneg(s.take(i));
        assert(digits_val(t) == digits_val(s.take(i)) * 10 + digit_val(s[i]));
    }
}

/// Parses a decimal integer with an optional leading sign, rejecting any
/// other text and any value outside the range of an `i64`.
pub fn parse_i64(s: &str) -> (r: Result<i64, crate::error::Error>)
    ensures
        r is Ok <==> valid_int_str(s@) && i64::MIN <= spec_int_val(s@) <= i64::MAX,
        r matches Ok(n) ==> n as int == spec_int_val(s@),
        r matches Err(e) ==> e is Parse,
{
    let len = s.unicode_len();
    if len == 0 {
        return Err(crate::error::Error::Parse);
    }
    let c0 = s.get_char(0);
    let neg = c0 == '-';
    let has_sign = neg || c0 == '+';
    let start: usize = if has_sign {
        1
    } else {
        0
    };
    proof {
        assert(int_digits(s@) =~= s@.skip(start as int));
    }
    if start == len {
        return Err(crate::error::Error::Parse);
    }
    let ghost digits = int_digits(s@);
    let limit: u64 = if neg {
        9223372036854775808
    } else {
        9223372036854775807
    };
    let mut acc: u64 = 0;
    let mut i: usize = start;
    proof {
        assert(digits.take(0) =~= Seq::<char>::empty());
    }
    while i < len
        invariant
            start <= i <= len,
            len == s@.len(),
            start == 1 ==> (s@[0] == '+' || s@[0] == '-'),
            neg == int_negative(s@),
            digits == int_digits(s@),
            digits =~= s@.skip(start as int),
            limit == (if neg {
                9223372036854775808u64
            } else {
                9223372036854775807u64
            }),
            all_digits(digits.take(i - start)),
            acc as int == digits_val(digits.take(i - start)),
            acc <= limit,
        decreases len - i,
    {
        let c = s.get_char(i);
        let cv = c as u32;
        if cv < 48 || cv > 57 {
            proof {
                assert(digits[i - start] == s@[i as int]);
                assert(!is_digit(digits[i - start]));
            }
            return Err(crate::error::Error::Parse);
        }
        let d = (cv - 48) as u64;
        let ghost pre = digits.take(i - start);
        let ghost ext = digits.take(i + 1 - start);
        proof {
            assert(ext.drop_last() =~= pre);
            assert(ext.last() == digits[i - start]);
            assert(digits[i - start] == s@[i as int]);
            assert(digits_val(ext) == digits_val(pre) * 10 + digit_val(s@[i as int]));
        }
        let mut overflow = false;
        match acc.checked_mul(10) {
            Some(t) => {
                match t.checked_add(d) {
                    Some(v) => {
                        if v <= limit {
                            acc = v;
                        } else {
                            overflow = true;
                        }
                    },
                    None => {
                        overflow = true;
                    },
                }
            },
            None => {
                overflow = true;
            },
        }
        if overflow {
            proof {
                assert(digits_val(ext) > limit);
                if valid_int_str(s@) {
                    lemma_digits_val_prefix_le(digits, i + 1 - start);
                    assert(digits_val(digits) > limit);
                }
            }
            return Err(crate::error::Error::Parse);
        }
        i += 1;
    }
    proof {
        assert(digits.take(len - start) =~= digits);
        assert(valid_int_str(s@));
    }
    if neg {
        if acc == 9223372036854775808 {
            Ok(i64::MIN)
        } else {
            Ok(-(acc as i64))
        }
    } else {
        Ok(acc as i64)
    }
}

/// Parses a decimal integer as an `i32`, rejecting any value outside its
/// range.
pub fn parse_i32(s: &str) -> (r: Result<i32, crate::error::Error>)
    ensures
        r is Ok <==> valid_int_str(s@) && i32::MIN <= spec_int_val(s@) <= i32::MAX,
        r matches Ok(n) ==> n as int == spec_int_val(s@),
        r matches Err(e) ==> e is Parse,
{
    match parse_i64(s) {
        Ok(n) => {
            if -2147483648 <= n && n <= 2147483647 {
                Ok(n as i32)
            } else {
                Err(crate::error::Error::Parse)
            }
        },
        Err(e) => Err(e),
    }
}

} // verus!
