//! Splitting and joining of character sequences at a separator.

use vstd::prelude::*;

verus! {

/// Index of the first `sep` in `s`, or the length of `s` where there is
/// none.
pub open spec fn find_sep(s: Seq<char>, sep: char) -> nat
    decreases s.len(),
{
    if s.len() == 0 || s[0] == sep {
        0
    } else {
        1 + find_sep(s.drop_first(), sep)
    }
}

/// `s` holds no `sep`.
pub open spec fn no_sep(s: Seq<char>, sep: char) -> bool {
    forall|j: int| 0 <= j < s.len() ==> s[j] != sep
}

/// The fields of `s` between the occurrences of `sep`: one more than there
/// are separators.
pub open spec fn split(s: Seq<char>, sep: char) -> Seq<Seq<char>>
    decreases s.len(),
{
    let i = find_sep(s, sep);
    if i >= s.len() {
        seq![s]
    } else {
        seq![s.take(i as int)] + split(s.skip(i as int + 1), sep)
    }
}

/// The fields in order with a `sep` between each two.
pub open spec fn join(fields: Seq<Seq<char>>, sep: char) -> Seq<char>
    decreases fields.len(),
{
    if fields.len() == 0 {
        Seq::<char>::empty()
    } else if fields.len() == 1 {
        fields[0]
    } else {
        fields[0] + seq![sep] + join(fields.drop_first(), sep)
    }
}

/// `find_sep` stays within `s`, passes over no separator, and stops at one
/// unless it reaches the end.
pub proof fn lemma_find_sep(s: Seq<char>, sep: char)
    ensures
        find_sep(s, sep) <= s.len(),
        forall|j: int| 0 <= j < find_sep(s, sep) ==> s[j] != sep,
        find_sep(s, sep) < s.len() ==> s[find_sep(s, sep) as int] == sep,
    decreases s.len(),
{
    if s.len() == 0 || s[0] == sep {
    } else {
        let t = s.drop_first();
        lemma_find_sep(t, sep);
        assert forall|j: int| 0 <= j < find_sep(s, sep) implies s[j] != sep by {
            if j > 0 {
                assert(s[j] == t[j - 1]);
            }
        }
        if find_sep(s, sep) < s.len() {
            assert(s[find_sep(s, sep) as int] == t[find_sep(t, sep) as int]);
        }
    }
}

/// The first position that holds `sep`, after positions that do not, is
/// what `find_sep` returns.
pub proof fn lemma_find_sep_is(s: Seq<char>, sep: char, k: nat)
    requires
        k <= s.len(),
        forall|j: int| 0 <= j < k ==> s[j] != sep,
        k == s.len() || s[k as int] == sep,
    ensures
        find_sep(s, sep) == k,
    decreases s.len(),
{
    if k == 0 {
    } else {
        let t = s.drop_first();
        assert forall|j: int| 0 <= j < k - 1 implies t[j] != sep by {
            assert(t[j] == s[j + 1]);
        }
        if k < s.len() {
            assert(t[k - 1] == s[k as int]);
        }
        lemma_find_sep_is(t, sep, (k - 1) as nat);
    }
}

/// Splitting what was joined gives the fields back, where no field holds
/// the separator.
pub proof fn lemma_split_join(fields: Seq<Seq<char>>, sep: char)
    requires
        fields.len() >= 1,
        forall|i: int| 0 <= i < fields.len() ==> no_sep(#[trigger] fields[i], sep),
    ensures
        split(join(fields, sep), sep) == fields,
    decreases fields.len(),
{
    let first = fields[0];
    assert(no_sep(first, sep));
    if fields.len() == 1 {
        lemma_find_sep_is(first, sep, first.len());
        assert(split(first, sep) =~= fields);
    } else {
        let rest = fields.drop_first();
        assert forall|i: int| 0 <= i < rest.len() implies no_sep(#[trigger] rest[i], sep) by {
            assert(rest[i] == fields[i + 1]);
        }
        lemma_split_join(rest, sep);
        let tail = join(rest, sep);
        let whole = first + seq![sep] + tail;
        assert(whole[first.len() as int] == sep);
        assert forall|j: int| 0 <= j < first.len() implies whole[j] != sep by {
            assert(whole[j] == first[j]);
        }
        lemma_find_sep_is(whole, sep, first.len());
        assert(whole.take(first.len() as int) =~= first);
        assert(whole.skip(first.len() as int + 1) =~= tail);
        assert(split(whole, sep) =~= fields);
    }
}

/// Joining what was split gives the sequence back; there is at least one
/// field, and no field holds the separator.
pub proof fn lemma_join_split(s: Seq<char>, sep: char)
    ensures
        join(split(s, sep), sep) == s,
        split(s, sep).len() >= 1,
        forall|i: int| 0 <= i < split(s, sep).len() ==> no_sep(#[trigger] split(s, sep)[i], sep),
    decreases s.len(),
{
    lemma_find_sep(s, sep);
    let i = find_sep(s, sep);
    if i >= s.len() {
        assert(split(s, sep) =~= seq![s]);
    } else {
        let head = s.take(i as int);
        let tail = s.skip(i as int + 1);
        lemma_join_split(tail, sep);
        let rest = split(tail, sep);
        let all = seq![head] + rest;
        assert(all.drop_first() =~= rest);
        assert(join(all, sep) == head + seq![sep] + join(rest, sep));
        assert(head + seq![sep] + tail =~= s);
        assert forall|k: int| 0 <= k < all.len() implies no_sep(#[trigger] all[k], sep) by {
            if k > 0 {
                assert(all[k] == rest[k - 1]);
            }
        }
    }
}

/// The character sequences that a vector of words holds.
pub open spec fn words_view(words: Vec<Vec<char>>) -> Seq<Seq<char>> {
    Seq::new(words@.len(), |i: int| words@[i]@)
}

/// Splits `s` at every `sep`.
pub fn split_chars(s: &Vec<char>, sep: char) -> (fields: Vec<Vec<char>>)
    ensures
        words_view(fields) == split(s@, sep),
{
    let mut fields: Vec<Vec<char>> = Vec::new();
    let mut cur: Vec<char> = Vec::new();
    let mut start: usize = 0;
    let mut i: usize = 0;
    assert(s@.skip(0) =~= s@);
    assert(words_view(fields) + split(s@, sep) =~= split(s@, sep));
    while i < s.len()
        invariant
            start <= i <= s@.len(),
            cur@ == s@.subrange(start as int, i as int),
            forall|j: int| start <= j < i ==> s@[j] != sep,
            split(s@, sep) == words_view(fields) + split(s@.skip(start as int), sep),
        decreases s@.len() - i,
    {
        let c = s[i];
        if c == sep {
            proof {
                let rest = s@.skip(start as int);
                assert forall|j: int| 0 <= j < i - start implies rest[j] != sep by {
                    assert(rest[j] == s@[start + j]);
                }
                lemma_find_sep_is(rest, sep, (i - start) as nat);
                assert(rest.take(i - start) =~= cur@);
                assert(rest.skip(i - start + 1) =~= s@.skip(i + 1));
            }
            let ghost before = words_view(fields);
            fields.push(cur);
            assert(words_view(fields) =~= before + seq![s@.subrange(start as int, i as int)]);
            cur = Vec::new();
            start = i + 1;
            assert(cur@ =~= s@.subrange(start as int, start as int));
        } else {
            cur.push(c);
            assert(cur@ =~= s@.subrange(start as int, i + 1));
        }
        i += 1;
    }
    proof {
        let rest = s@.skip(start as int);
        assert forall|j: int| 0 <= j < rest.len() implies rest[j] != sep by {
            assert(rest[j] == s@[start + j]);
        }
        lemma_find_sep_is(rest, sep, rest.len());
        assert(rest =~= cur@);
    }
    let ghost before = words_view(fields);
    fields.push(cur);
    assert(words_view(fields) =~= before + seq![s@.skip(start as int)]);
    fields
}

/// The characters of `s`.
pub fn chars_of(s: &str) -> (out: Vec<char>)
    ensures
        out@ == s@,
{
    let mut out: Vec<char> = Vec::new();
    let n = s.unicode_len();
    let mut i: usize = 0;
    while i < n
        invariant
            i <= n,
            n == s@.len(),
            out@ == s@.take(i as int),
        decreases n - i,
    {
        out.push(s.get_char(i));
        assert(out@ =~= s@.take(i + 1));
        i += 1;
    }
    assert(out@ =~= s@);
    out
}

/// Whether two words are the same.
pub fn same_chars(a: &Vec<char>, b: &Vec<char>) -> (same: bool)
    ensures
        same == (a@ == b@),
{
    if a.len() != b.len() {
        return false;
    }
    let mut i: usize = 0;
    while i < a.len()
        invariant
            i <= a@.len(),
            a@.len() == b@.len(),
            forall|j: int| 0 <= j < i ==> a@[j] == b@[j],
        decreases a@.len() - i,
    {
        if a[i] != b[i] {
            return false;
        }
        i += 1;
    }
    assert(a@ =~= b@);
    true
}

/// Whether `word` spells `text`.
pub fn is_word(word: &Vec<char>, text: &str) -> (same: bool)
    ensures
        same == (word@ == text@),
{
    let other = chars_of(text);
    same_chars(word, &other)
}

/// What was joined begins with the first field.
pub proof fn lemma_join_prefix(fields: Seq<Seq<char>>, sep: char)
    requires
        fields.len() >= 1,
    ensures
        join(fields, sep).len() >= fields[0].len(),
        join(fields, sep).take(fields[0].len() as int) == fields[0],
{
    if fields.len() == 1 {
        assert(fields[0].take(fields[0].len() as int) =~= fields[0]);
    } else {
        let whole = fields[0] + seq![sep] + join(fields.drop_first(), sep);
        assert(whole.take(fields[0].len() as int) =~= fields[0]);
    }
}

/// A character that is neither the separator nor in any field is not in
/// what was joined.
pub proof fn lemma_join_no_sep(fields: Seq<Seq<char>>, sep: char, other: char)
    requires
        sep != other,
        forall|i: int| 0 <= i < fields.len() ==> no_sep(#[trigger] fields[i], other),
    ensures
        no_sep(join(fields, sep), other),
    decreases fields.len(),
{
    if fields.len() == 0 {
    } else if fields.len() == 1 {
        assert(no_sep(fields[0], other));
    } else {
        let rest = fields.drop_first();
        assert forall|i: int| 0 <= i < rest.len() implies no_sep(#[trigger] rest[i], other) by {
            assert(rest[i] == fields[i + 1]);
        }
        lemma_join_no_sep(rest, sep, other);
        assert(no_sep(fields[0], other));
    }
}

/// The characters of `s` from `from` up to `to`.
pub fn sub_chars(s: &Vec<char>, from: usize, to: usize) -> (out: Vec<char>)
    requires
        from <= to <= s@.len(),
    ensures
        out@ == s@.subrange(from as int, to as int),
{
    let mut out: Vec<char> = Vec::new();
    let mut i: usize = from;
    while i < to
        invariant
            from <= i <= to <= s@.len(),
            out@ == s@.subrange(from as int, i as int),
        decreases to - i,
    {
        out.push(s[i]);
        assert(out@ =~= s@.subrange(from as int, i + 1));
        i += 1;
    }
    out
}

} // verus!
