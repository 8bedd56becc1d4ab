//! Character-sequence helpers: suffix tests and deletion of every occurrence
//! of a pattern, as `str::ends_with` and `str::replace(pattern, "")` do.

use vstd::prelude::*;

verus! {

/// `s` with every non-overlapping occurrence of `pat`, found from left to
/// right, deleted. An empty pattern deletes nothing.
pub open spec fn deleted(s: Seq<char>, pat: Seq<char>) -> Seq<char>
    decreases s.len(),
{
    if pat.len() == 0 || s.len() < pat.len() {
        s
    } else if pat.is_prefix_of(s) {
        deleted(s.skip(pat.len() as int), pat)
    } else {
        seq![s[0]] + deleted(s.skip(1), pat)
    }
}

/// Whether `s` holds `pat` starting at character `i`.
fn matches_at(s: &str, pat: &str, i: usize, n: usize, m: usize) -> (r: bool)
    requires
        n == s@.len(),
        m == pat@.len(),
        i + m <= n,
    ensures
        r == (s@.subrange(i as int, i + m) == pat@),
{
    let mut j: usize = 0;
    while j < m
        invariant
            n == s@.len(),
            m == pat@.len(),
            i + m <= n,
            j <= m,
            forall|k: int| 0 <= k < j ==> s@[i + k] == pat@[k],
        decreases m - j,
    {
        if s.get_char(i + j) != pat.get_char(j) {
            assert(s@.subrange(i as int, i + m)[j as int] != pat@[j as int]);
            return false;
        }
        j = j + 1;
    }
    assert(s@.subrange(i as int, i + m) =~= pat@);
    true
}

/// Whether `s` ends with `suffix`.
pub fn ends_with(s: &str, suffix: &str) -> (r: bool)
    ensures
        r == suffix@.is_suffix_of(s@),
{
    let n = s.unicode_len();
    let m = suffix.unicode_len();
    if m > n {
        return false;
    }
    let r = matches_at(s, suffix, n - m, n, m);
    proof {
        assert(r == (suffix@ =~= s@.subrange(n - m, n as int)));
    }
    r
}

/// `s` with every occurrence of `pat` deleted, left to right, as
/// `s.replace(pat, "")` computes it.
pub fn remove_all(s: &str, pat: &str) -> (r: String)
    ensures
        r@ == deleted(s@, pat@),
{
    let n = s.unicode_len();
    let m = pat.unicode_len();
    if m == 0 {
        return String::from_str(s);
    }
    let mut out = String::new();
    let mut seg: usize = 0;
    let mut i: usize = 0;
    assert(s@.skip(0) =~= s@);
    while m <= n - i
        invariant
            n == s@.len(),
            m == pat@.len(),
            m > 0,
            seg <= i <= n,
            out@ + s@.subrange(seg as int, i as int) + deleted(s@.skip(i as int), pat@) == deleted(
                s@,
                pat@,
            ),
        decreases n - i,
    {
        let ghost rest = s@.skip(i as int);
        if matches_at(s, pat, i, n, m) {
            proof {
                assert(rest.subrange(0, m as int) =~= s@.subrange(i as int, i + m));
                assert(rest.skip(m as int) =~= s@.skip(i + m));
                assert(deleted(rest, pat@) == deleted(s@.skip(i + m), pat@));
            }
            let piece = s.substring_char(seg, i);
            let ghost before = out@;
            out.append(piece);
            i = i + m;
            seg = i;
            proof {
                assert(s@.subrange(seg as int, i as int) =~= Seq::<char>::empty());
                assert(out@ + s@.subrange(seg as int, i as int) =~= before + s@.subrange(
                    (i - m) as int,
                    (i - m) as int,
                ) + piece@);
            }
            assert(out@ + s@.subrange(seg as int, i as int) + deleted(s@.skip(i as int), pat@)
                =~= deleted(s@, pat@));
        } else {
            proof {
                assert(rest.subrange(0, m as int) =~= s@.subrange(i as int, i + m));
                assert(!pat@.is_prefix_of(rest));
                assert(rest.skip(1) =~= s@.skip(i + 1));
                assert(deleted(rest, pat@) == seq![s@[i as int]] + deleted(s@.skip(i + 1), pat@));
                assert(s@.subrange(seg as int, i + 1) =~= s@.subrange(seg as int, i as int) + seq![
                    s@[i as int],
                ]);
            }
            i = i + 1;
            assert(out@ + s@.subrange(seg as int, i as int) + deleted(s@.skip(i as int), pat@)
                =~= deleted(s@, pat@));
        }
    }
    let tail = s.substring_char(seg, n);
    proof {
        assert(deleted(s@.skip(i as int), pat@) == s@.skip(i as int));
        assert(s@.subrange(seg as int, i as int) + s@.skip(i as int) =~= tail@);
    }
    let ghost before = out@;
    out.append(tail);
    assert(out@ =~= before + s@.subrange(seg as int, i as int) + s@.skip(i as int));
    out
}

/// Whether `pat` occurs in `s` at character `i`.
pub open spec fn occurs_at(s: Seq<char>, pat: Seq<char>, i: int) -> bool {
    0 <= i && i + pat.len() <= s.len() && s.subrange(i, i + pat.len()) == pat
}

/// Whether `pat` occurs anywhere in `s`.
pub open spec fn occurs_in(s: Seq<char>, pat: Seq<char>) -> bool {
    exists|i: int| occurs_at(s, pat, i)
}

/// Deleting a pattern that does not occur leaves the sequence as it was.
pub proof fn lemma_deleted_absent(s: Seq<char>, pat: Seq<char>)
    requires
        !occurs_in(s, pat),
    ensures
        deleted(s, pat) == s,
    decreases s.len(),
{
    if pat.len() == 0 || s.len() < pat.len() {
    } else {
        assert(!occurs_at(s, pat, 0));
        assert(s.subrange(0, pat.len() as int) == s.take(pat.len() as int));
        assert(!pat.is_prefix_of(s));
        let t = s.skip(1);
        assert forall|i: int| !occurs_at(t, pat, i) by {
            if occurs_at(t, pat, i) {
                assert(s.subrange(i + 1, i + 1 + pat.len()) =~= t.subrange(i, i + pat.len()));
                assert(occurs_at(s, pat, i + 1));
            }
        }
        lemma_deleted_absent(t, pat);
        assert(s =~= seq![s[0]] + t);
    }
}

/// Deletion goes through a prefix `a` in which no occurrence of `pat` starts
/// in `a + b`: only `b` is changed.
pub proof fn lemma_deleted_clean_prefix(a: Seq<char>, b: Seq<char>, pat: Seq<char>)
    requires
        pat.len() > 0,
        forall|i: int| 0 <= i < a.len() ==> !occurs_at(a + b, pat, i),
    ensures
        deleted(a + b, pat) == a + deleted(b, pat),
    decreases a.len(),
{
    let ab = a + b;
    if a.len() == 0 {
        assert(ab =~= b);
        assert(a + deleted(b, pat) =~= deleted(b, pat));
    } else if ab.len() < pat.len() {
        assert(b.len() < pat.len());
    } else {
        assert(!occurs_at(ab, pat, 0));
        assert(ab.subrange(0, pat.len() as int) == ab.take(pat.len() as int));
        assert(!pat.is_prefix_of(ab));
        let a1 = a.skip(1);
        assert(ab.skip(1) =~= a1 + b);
        assert forall|i: int| 0 <= i < a1.len() implies !occurs_at(a1 + b, pat, i) by {
            if occurs_at(a1 + b, pat, i) {
                assert(ab.subrange(i + 1, i + 1 + pat.len()) =~= (a1 + b).subrange(
                    i,
                    i + pat.len(),
                ));
                assert(occurs_at(ab, pat, i + 1));
            }
        }
        lemma_deleted_clean_prefix(a1, b, pat);
        assert(a =~= seq![a[0]] + a1);
        assert(ab[0] == a[0]);
    }
}

/// No end of `pat` is a beginning of `ext`: `pat` cannot occur across the
/// joint of a sequence followed by `ext`.
pub open spec fn no_overlap(ext: Seq<char>, pat: Seq<char>) -> bool {
    forall|k: int|
        1 <= k < pat.len() && pat.len() - k <= ext.len() ==> #[trigger] pat.skip(k) != ext.take(
            pat.len() - k,
        )
}

/// In `a + ext`, an occurrence of `pat` that starts in `a` lies within `a`.
pub proof fn lemma_no_occurrence_across(a: Seq<char>, ext: Seq<char>, pat: Seq<char>, i: int)
    requires
        no_overlap(ext, pat),
        0 <= i < a.len(),
        occurs_at(a + ext, pat, i),
    ensures
        occurs_at(a, pat, i),
{
    let ae = a + ext;
    let l = pat.len() as int;
    if i + l > a.len() {
        let k = a.len() - i;
        assert(ae.subrange(i, i + l).skip(k) =~= ext.take(l - k));
        assert(pat.skip(k) == ext.take(l - k));
    } else {
        assert(ae.subrange(i, i + l) =~= a.subrange(i, i + l));
    }
}

/// An occurrence at the very start is deleted, and deletion goes on after
/// it; with `lemma_deleted_absent` and `lemma_deleted_clean_prefix` this
/// fixes `deleted` on every input: cut `s` at the first occurrence.
pub proof fn lemma_deleted_leading_occurrence(s: Seq<char>, pat: Seq<char>)
    requires
        pat.len() > 0,
    ensures
        deleted(pat + s, pat) == deleted(s, pat),
        deleted(s, pat).len() <= s.len(),
    decreases s.len(),
{
    let ps = pat + s;
    assert(ps.subrange(0, pat.len() as int) =~= pat);
    assert(pat.is_prefix_of(ps));
    assert(ps.skip(pat.len() as int) =~= s);
    lemma_deleted_shorter(s, pat);
}

/// Deleting never lengthens.
proof fn lemma_deleted_shorter(s: Seq<char>, pat: Seq<char>)
    ensures
        deleted(s, pat).len() <= s.len(),
    decreases s.len(),
{
    if pat.len() == 0 || s.len() < pat.len() {
    } else if pat.is_prefix_of(s) {
        lemma_deleted_shorter(s.skip(pat.len() as int), pat);
    } else {
        lemma_deleted_shorter(s.skip(1), pat);
    }
}

/// An empty pattern deletes nothing.
pub proof fn lemma_deleted_empty_pattern(s: Seq<char>)
    ensures
        deleted(s, Seq::<char>::empty()) == s,
{
}

} // verus!
