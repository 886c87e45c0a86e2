use vstd::prelude::*;

verus! {

/// Splitting a character sequence on a separator, in the manner of
/// `str::split`: the result always has at least one part, and joining the
/// parts with the separator gives the original sequence back.
pub open spec fn split_on(s: Seq<char>, sep: char) -> Seq<Seq<char>>
    decreases s.len(),
{
    if s.len() == 0 {
        seq![Seq::<char>::empty()]
    } else if s[0] == sep {
        seq![Seq::<char>::empty()] + split_on(s.drop_first(), sep)
    } else {
        let rest = split_on(s.drop_first(), sep);
        seq![seq![s[0]] + rest[0]] + rest.drop_first()
    }
}

/// Interleaves the separator between the parts.
pub open spec fn join_with(parts: Seq<Seq<char>>, sep: char) -> Seq<char>
    decreases parts.len(),
{
    if parts.len() == 0 {
        Seq::<char>::empty()
    } else if parts.len() == 1 {
        parts[0]
    } else {
        parts[0] + seq![sep] + join_with(parts.drop_first(), sep)
    }
}

pub proof fn lemma_split_on_len(s: Seq<char>, sep: char)
    ensures
        split_on(s, sep).len() >= 1,
    decreases s.len(),
{
    if s.len() == 0 {
    } else {
        lemma_split_on_len(s.drop_first(), sep);
    }
}

/// Joining a split gives the original sequence back.
pub proof fn lemma_join_split(s: Seq<char>, sep: char)
    ensures
        join_with(split_on(s, sep), sep) == s,
    decreases s.len(),
{
    if s.len() == 0 {
        assert(join_with(split_on(s, sep), sep) =~= s);
    } else if s[0] == sep {
        lemma_join_split(s.drop_first(), sep);
        lemma_split_on_len(s.drop_first(), sep);
        let tail_parts = split_on(s.drop_first(), sep);
        let parts = seq![Seq::<char>::empty()] + tail_parts;
        assert(parts.len() >= 2);
        assert(parts.drop_first() =~= tail_parts);
        assert(join_with(parts, sep) == parts[0] + seq![sep] + join_with(tail_parts, sep));
        assert(join_with(parts, sep) =~= s);
    } else {
        lemma_join_split(s.drop_first(), sep);
        lemma_split_on_len(s.drop_first(), sep);
        let rest = split_on(s.drop_first(), sep);
        let parts = seq![seq![s[0]] + rest[0]] + rest.drop_first();
        if rest.len() == 1 {
            assert(parts.len() == 1);
            assert(join_with(parts, sep) == seq![s[0]] + rest[0]);
            assert(join_with(rest, sep) == rest[0]);
            assert(join_with(parts, sep) =~= s);
        } else {
            assert(parts.len() >= 2);
            assert(parts.drop_first() =~= rest.drop_first());
            assert(join_with(parts, sep) == (seq![s[0]] + rest[0]) + seq![sep] + join_with(
                rest.drop_first(),
                sep,
            ));
            assert(join_with(rest, sep) == rest[0] + seq![sep] + join_with(
                rest.drop_first(),
                sep,
            ));
            assert(join_with(rest, sep) == s.drop_first());
            let j = join_with(rest.drop_first(), sep);
            assert(join_with(parts, sep) =~= seq![s[0]] + (rest[0] + seq![sep] + j));
            assert(rest[0] + seq![sep] + j == s.drop_first());
            assert(seq![s[0]] + s.drop_first() =~= s);
            assert(join_with(parts, sep) =~= s);
        }
    }
}

/// A sequence without the separator splits into itself alone.
pub proof fn lemma_split_on_whole(s: Seq<char>, sep: char)
    requires
        !s.contains(sep),
    ensures
        split_on(s, sep) == seq![s],
    decreases s.len(),
{
    if s.len() == 0 {
        assert(split_on(s, sep) =~~= seq![s]);
    } else {
        assert(s[0] != sep);
        assert forall|j: int| 0 <= j < s.drop_first().len() implies s.drop_first()[j] != sep by {
            assert(s.drop_first()[j] == s[j + 1]);
        }
        lemma_split_on_whole(s.drop_first(), sep);
        let rest = split_on(s.drop_first(), sep);
        assert(rest == seq![s.drop_first()]);
        assert(split_on(s, sep) =~~= seq![seq![s[0]] + s.drop_first()]);
        assert(seq![s[0]] + s.drop_first() =~= s);
        assert(split_on(s, sep) =~~= seq![s]);
    }
}

/// Splitting a sequence that starts with a separator-free prefix, the
/// separator, and a tail yields the prefix followed by the split of the tail.
pub proof fn lemma_split_on_prefix(a: Seq<char>, b: Seq<char>, sep: char)
    requires
        !a.contains(sep),
    ensures
        split_on(a + seq![sep] + b, sep) == seq![a] + split_on(b, sep),
    decreases a.len(),
{
    let s = a + seq![sep] + b;
    if a.len() == 0 {
        assert(s[0] == sep);
        assert(s.drop_first() =~= b);
        assert(split_on(s, sep) == seq![Seq::<char>::empty()] + split_on(b, sep));
        assert(seq![Seq::<char>::empty()] + split_on(b, sep) =~~= seq![a] + split_on(b, sep));
    } else {
        assert(s[0] == a[0]);
        assert(s[0] != sep);
        assert forall|j: int| 0 <= j < a.drop_first().len() implies a.drop_first()[j] != sep by {
            assert(a.drop_first()[j] == a[j + 1]);
        }
        lemma_split_on_prefix(a.drop_first(), b, sep);
        assert(s.drop_first() =~= a.drop_first() + seq![sep] + b);
        let rest = split_on(s.drop_first(), sep);
        assert(rest == seq![a.drop_first()] + split_on(b, sep));
        lemma_split_on_len(b, sep);
        assert(rest[0] == a.drop_first());
        assert(seq![s[0]] + rest[0] =~= a);
        assert(rest.drop_first() =~= split_on(b, sep));
        assert(split_on(s, sep) =~~= seq![a] + split_on(b, sep));
    }
}

/// The views of a vector of strings.
pub open spec fn views_of(parts: Seq<String>) -> Seq<Seq<char>> {
    parts.map_values(|p: String| p@)
}

/// Splits a string on every occurrence of the separator.
pub fn split_string(s: &str, sep: char) -> (r: Vec<String>)
    ensures
        views_of(r@) == split_on(s@, sep),
{
    let n = s.unicode_len();
    let mut parts: Vec<String> = Vec::new();
    let mut start: usize = 0;
    let mut i: usize = 0;
    proof {
        assert(s@.subrange(0, n as int) =~= s@);
        assert(views_of(parts@) + split_on(s@.subrange(0, n as int), sep) =~~= split_on(s@, sep));
    }
    while i < n
        invariant
            0 <= start <= i <= n,
            n == s@.len(),
            !s@.subrange(start as int, i as int).contains(sep),
            split_on(s@, sep) == views_of(parts@) + split_on(
                s@.subrange(start as int, n as int),
                sep,
            ),
        decreases n - i,
    {
        let c = s.get_char(i);
        if c == sep {
            let part = s.substring_char(start, i).to_owned();
            let ghost old_parts = parts@;
            parts.push(part);
            proof {
                let head = s@.subrange(start as int, i as int);
                let tail = s@.subrange(i + 1, n as int);
                assert(s@.subrange(start as int, n as int) =~= head + seq![sep] + tail);
                lemma_split_on_prefix(head, tail, sep);
                assert(views_of(parts@) =~= views_of(old_parts) + seq![head]);
                assert(views_of(parts@) + split_on(tail, sep) =~~= views_of(old_parts) + (
                seq![head] + split_on(tail, sep)));
            }
            start = i + 1;
        }
        proof {
            if c != sep {
                assert(s@.subrange(start as int, i + 1) =~= s@.subrange(start as int, i as int)
                    + seq![s@[i as int]]);
                assert forall|j: int| 0 <= j < s@.subrange(start as int, i + 1).len() implies (
                #[trigger] s@.subrange(start as int, i + 1)[j]) != sep by {}
            } else {
                assert(s@.subrange(start as int, i + 1).len() == 0);
            }
        }
        i = i + 1;
    }
    let last = s.substring_char(start, n).to_owned();
    let ghost old_parts = parts@;
    parts.push(last);
    proof {
        lemma_split_on_whole(s@.subrange(start as int, n as int), sep);
        assert(views_of(parts@) =~= views_of(old_parts) + seq![
            s@.subrange(start as int, n as int),
        ]);
        assert(views_of(parts@) =~~= views_of(old_parts) + split_on(
            s@.subrange(start as int, n as int),
            sep,
        ));
        assert(views_of(parts@) =~~= split_on(s@, sep));
    }
    parts
}

/// Finds the first occurrence of the separator, if any.
pub fn find_first(s: &str, sep: char) -> (r: Option<usize>)
    ensures
        match r {
            Some(i) => i < s@.len() && s@[i as int] == sep && !s@.subrange(
                0,
                i as int,
            ).contains(sep),
            None => !s@.contains(sep),
        },
{
    let n = s.unicode_len();
    let mut i: usize = 0;
    while i < n
        invariant
            0 <= i <= n,
            n == s@.len(),
            !s@.subrange(0, i as int).contains(sep),
        decreases n - i,
    {
        if s.get_char(i) == sep {
            return Some(i);
        }
        proof {
            assert(s@.subrange(0, i + 1) =~= s@.subrange(0, i as int) + seq![s@[i as int]]);
            assert forall|j: int| 0 <= j < s@.subrange(0, i + 1).len() implies (#[trigger] s@.subrange(
                0,
                i + 1,
            )[j]) != sep by {}
        }
        i = i + 1;
    }
    proof {
        assert(s@.subrange(0, n as int) =~= s@);
    }
    None
}

/// Whether the string contains the character.
pub fn contains_char(s: &str, sep: char) -> (r: bool)
    ensures
        r == s@.contains(sep),
{
    match find_first(s, sep) {
        Some(_) => true,
        None => false,
    }
}

/// Whether two string slices hold the same characters.
pub fn str_eq(a: &str, b: &str) -> (r: bool)
    ensures
        r == (a@ == b@),
{
    let sa = a.to_owned();
    let sb = b.to_owned();
    sa == sb
}

} // verus!
