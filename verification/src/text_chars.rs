use vstd::prelude::*;

verus! {

/// Whether `s` is strictly increasing by code point.
pub open spec fn strictly_increasing(s: Seq<char>) -> bool {
    forall|i: int, j: int| 0 <= i < j < s.len() ==> (#[trigger] s[i] as int) < (#[trigger] s[j] as int)
}

/// Along a strictly increasing list of characters each code point is at
/// least one more than the one before.
pub proof fn lemma_strictly_increasing_offset(s: Seq<char>, i: int)
    requires
        strictly_increasing(s),
        0 <= i < s.len(),
    ensures
        (s[i] as int) >= (s[0] as int) + i,
    decreases i,
{
    if i > 0 {
        lemma_strictly_increasing_offset(s, i - 1);
        assert((s[i - 1] as int) < (s[i] as int));
    }
}

/// Every character is a code point from 0 to 0x10FFFF.
pub proof fn lemma_char_range(c: char)
    ensures
        0 <= (c as int) <= 0x10FFFF,
{
}

/// The length of a strictly increasing list of characters: at most one entry
/// per Unicode code point.
pub fn strictly_increasing_len(chars: &Vec<char>) -> (n: usize)
    requires
        strictly_increasing(chars@),
    ensures
        n == chars@.len(),
        n <= 0x11_0000,
{
    let n = chars.len();
    if n > 0 {
        proof {
            lemma_strictly_increasing_offset(chars@, n as int - 1);
            lemma_char_range(chars@[0]);
            lemma_char_range(chars@[n as int - 1]);
        }
    }
    n
}

/// Whether `c` occurs in one of `texts`.
pub open spec fn occurs_in_texts(texts: Seq<&str>, c: char) -> bool {
    exists|t: int| 0 <= t < texts.len() && #[trigger] texts[t]@.contains(c)
}

/// Adds `c` to a strictly increasing list of characters, where it belongs.
pub fn insert_sorted(set: &mut Vec<char>, c: char)
    requires
        strictly_increasing(old(set)@),
    ensures
        strictly_increasing(final(set)@),
        forall|d: char| final(set)@.contains(d) <==> (old(set)@.contains(d) || d == c),
{
    let mut i: usize = 0;
    while i < set.len() && set[i] < c
        invariant
            i <= set@.len(),
            strictly_increasing(set@),
            forall|j: int| 0 <= j < i ==> (set@[j] as int) < (c as int),
        decreases set@.len() - i,
    {
        i = i + 1;
    }
    if i < set.len() && set[i] == c {
        assert(set@[i as int] == c);
        return;
    }
    assert forall|j: int| i <= j < set@.len() implies (c as int) < (set@[j] as int) by {
        assert((set@[i as int] as int) <= (set@[j] as int));
    }
    let ghost before = set@;
    set.insert(i, c);
    proof {
        let after = set@;
        assert forall|a: int, b: int| 0 <= a < b < after.len() implies (#[trigger] after[a] as int) < (
        #[trigger] after[b] as int) by {
            if b < i {
            } else if a < i && b == i {
            } else if a < i {
                assert(after[b] == before[b - 1]);
                if b - 1 > i {
                    assert((before[i as int] as int) < (before[b - 1] as int));
                }
            } else if a == i {
                assert(after[b] == before[b - 1]);
                if b - 1 > i {
                    assert((before[i as int] as int) < (before[b - 1] as int));
                }
            } else {
                assert(after[a] == before[a - 1] && after[b] == before[b - 1]);
            }
        }
        assert forall|d: char| after.contains(d) <==> (before.contains(d) || d == c) by {
            if after.contains(d) {
                let k = choose|k: int| 0 <= k < after.len() && #[trigger] after[k] == d;
                if k < i {
                    assert(before[k] == d);
                } else if k > i {
                    assert(before[k - 1] == d);
                }
            }
            if before.contains(d) {
                let k = choose|k: int| 0 <= k < before.len() && #[trigger] before[k] == d;
                if k < i {
                    assert(after[k] == d);
                } else {
                    assert(after[k + 1] == d);
                }
            }
            if d == c {
                assert(after[i as int] == d);
            }
        }
    }
}

/// The distinct characters of `texts`, in code point order.
pub fn sorted_text_chars(texts: &[&str]) -> (chars: Vec<char>)
    ensures
        strictly_increasing(chars@),
        forall|c: char| chars@.contains(c) <==> occurs_in_texts(texts@, c),
{
    let mut set: Vec<char> = Vec::new();
    let mut t: usize = 0;
    while t < texts.len()
        invariant
            t <= texts@.len(),
            strictly_increasing(set@),
            forall|c: char|
                set@.contains(c) <==> exists|u: int| 0 <= u < t && #[trigger] texts@[u]@.contains(c),
        decreases texts@.len() - t,
    {
        let text: &str = texts[t];
        let n = text.unicode_len();
        let mut i: usize = 0;
        while i < n
            invariant
                t < texts@.len(),
                text == texts@[t as int],
                n == text@.len(),
                i <= n,
                strictly_increasing(set@),
                forall|c: char|
                    set@.contains(c) <==> ((exists|u: int| 0 <= u < t && #[trigger] texts@[u]@.contains(c))
                        || text@.subrange(0, i as int).contains(c)),
            decreases n - i,
        {
            let c = text.get_char(i);
            insert_sorted(&mut set, c);
            proof {
                assert forall|d: char| text@.subrange(0, i as int + 1).contains(d) <==> (text@.subrange(
                    0,
                    i as int,
                ).contains(d) || d == c) by {
                    if text@.subrange(0, i as int + 1).contains(d) {
                        let k = choose|k: int| 0 <= k < i + 1 && #[trigger] text@.subrange(0, i as int + 1)[k] == d;
                        if k < i {
                            assert(text@.subrange(0, i as int)[k] == d);
                        }
                    }
                    if text@.subrange(0, i as int).contains(d) {
                        let k = choose|k: int| 0 <= k < i && #[trigger] text@.subrange(0, i as int)[k] == d;
                        assert(text@.subrange(0, i as int + 1)[k] == d);
                    }
                    if d == c {
                        assert(text@.subrange(0, i as int + 1)[i as int] == d);
                    }
                }
            }
            i = i + 1;
        }
        proof {
            assert(text@.subrange(0, n as int) =~= text@);
            assert forall|c: char|
                set@.contains(c) <==> exists|u: int| 0 <= u < t + 1 && #[trigger] texts@[u]@.contains(c) by {
                if text@.contains(c) {
                    assert(texts@[t as int]@.contains(c));
                }
                if exists|u: int| 0 <= u < t + 1 && #[trigger] texts@[u]@.contains(c) {
                    let u = choose|u: int| 0 <= u < t + 1 && #[trigger] texts@[u]@.contains(c);
                    if u < t {
                    } else {
                        assert(text@.contains(c));
                    }
                }
            }
        }
        t = t + 1;
    }
    set
}

} // verus!
