//! Paths as OPFS sees them: trimming of slashes, splitting into parent and
//! name, and splitting a directory path into the segments that are walked
//! one handle at a time.

use vstd::prelude::*;

use crate::text::chars_of;

verus! {

/// `s` holds no `/`.
pub open spec fn slash_free(s: Seq<char>) -> bool {
    forall|i: int| 0 <= i < s.len() ==> s[i] != '/'
}

/// `s` with every leading `/` removed.
pub open spec fn trim_start_slashes(s: Seq<char>) -> Seq<char>
    decreases s.len(),
{
    if s.len() > 0 && s[0] == '/' {
        trim_start_slashes(s.drop_first())
    } else {
        s
    }
}

/// `s` with every trailing `/` removed.
pub open spec fn trim_end_slashes(s: Seq<char>) -> Seq<char>
    decreases s.len(),
{
    if s.len() > 0 && s.last() == '/' {
        trim_end_slashes(s.drop_last())
    } else {
        s
    }
}

/// `s` with every leading and every trailing `/` removed (what
/// `str::trim_matches('/')` gives).
pub open spec fn trim_slashes(s: Seq<char>) -> Seq<char> {
    trim_end_slashes(trim_start_slashes(s))
}

/// Removes every leading and trailing `/` from `path`.
pub fn trim_slashes_str(path: &str) -> (r: &str)
    ensures
        r@ == trim_slashes(path@),
{
    let cs = chars_of(path);
    let n = cs.len();
    let mut lo: usize = 0;
    assert(path@.subrange(0, n as int) =~= path@);
    while lo < n && cs[lo] == '/'
        invariant
            cs@ == path@,
            n == cs@.len(),
            lo <= n,
            trim_start_slashes(path@) == trim_start_slashes(path@.subrange(lo as int, n as int)),
        decreases n - lo,
    {
        assert(path@.subrange(lo as int, n as int).drop_first() =~= path@.subrange(
            lo + 1,
            n as int,
        ));
        lo = lo + 1;
    }
    assert(trim_start_slashes(path@) == path@.subrange(lo as int, n as int));
    let mut hi: usize = n;
    while hi > lo && cs[hi - 1] == '/'
        invariant
            cs@ == path@,
            n == cs@.len(),
            lo <= hi <= n,
            trim_slashes(path@) == trim_end_slashes(path@.subrange(lo as int, hi as int)),
        decreases hi - lo,
    {
        assert(path@.subrange(lo as int, hi as int).drop_last() =~= path@.subrange(
            lo as int,
            hi - 1,
        ));
        hi = hi - 1;
    }
    path.substring_char(lo, hi)
}

/// The index of the last `/` in `s`, or `-1` where `s` holds none.
pub open spec fn last_slash(s: Seq<char>) -> int
    decreases s.len(),
{
    if s.len() == 0 {
        -1
    } else if s.last() == '/' {
        s.len() - 1
    } else {
        last_slash(s.drop_last())
    }
}

/// `(parent, name)` of a path: the trimmed path cut at its last `/`, or
/// `("", trimmed)` where the trimmed path holds no `/`.
pub open spec fn split_path_spec(path: Seq<char>) -> (Seq<char>, Seq<char>) {
    let t = trim_slashes(path);
    let k = last_slash(t);
    if k < 0 {
        (Seq::empty(), t)
    } else {
        (t.take(k), t.skip(k + 1))
    }
}

/// Splits a path into its parent directory and its last component:
/// `"a/b/c.txt"` gives `("a/b", "c.txt")` and `"file.txt"` gives
/// `("", "file.txt")`. Slashes at either end of `path` are ignored.
pub fn split_path(path: &str) -> (r: (&str, &str))
    ensures
        (r.0@, r.1@) == split_path_spec(path@),
{
    let t = trim_slashes_str(path);
    let cs = chars_of(t);
    let n = cs.len();
    let mut j: usize = n;
    assert(t@.take(n as int) =~= t@);
    while j > 0 && cs[j - 1] != '/'
        invariant
            cs@ == t@,
            n == t@.len(),
            j <= n,
            last_slash(t@) == last_slash(t@.take(j as int)),
        decreases j,
    {
        assert(t@.take(j as int).drop_last() =~= t@.take(j - 1));
        j = j - 1;
    }
    if j == 0 {
        (t.substring_char(0, 0), t)
    } else {
        (t.substring_char(0, j - 1), t.substring_char(j, n))
    }
}

/// `s` cut at every `/`: `"a/b"` gives `["a", "b"]`, `"a//b"` gives
/// `["a", "", "b"]` and `""` gives `[""]` (what `str::split('/')` yields).
pub open spec fn split_on_slash(s: Seq<char>) -> Seq<Seq<char>>
    decreases s.len(),
{
    if s.len() == 0 {
        seq![Seq::empty()]
    } else {
        let prev = split_on_slash(s.drop_last());
        if s.last() == '/' {
            prev.push(Seq::empty())
        } else {
            prev.update(prev.len() - 1, prev.last().push(s.last()))
        }
    }
}

/// The directory names walked from the root to reach directory `dir`: none
/// for the root itself (a path of slashes only), else the trimmed path cut at
/// every `/`.
pub open spec fn dir_segments_spec(dir: Seq<char>) -> Seq<Seq<char>> {
    let t = trim_slashes(dir);
    if t.len() == 0 {
        Seq::empty()
    } else {
        split_on_slash(t)
    }
}

/// The names of the directories to open, one below the other, starting at
/// the root, to reach directory `dir`.
pub fn directory_segments(dir: &str) -> (segs: Vec<String>)
    ensures
        segs.deep_view() == dir_segments_spec(dir@),
        forall|i: int| 0 <= i < segs.len() ==> slash_free(#[trigger] segs@[i]@),
        join_with_slash(segs.deep_view()) == trim_slashes(dir@),
{
    proof {
        lemma_dir_segments_join(dir@);
    }
    let t = trim_slashes_str(dir);
    let cs = chars_of(t);
    let n = cs.len();
    let mut segs: Vec<String> = Vec::new();
    if n == 0 {
        assert(segs.deep_view() =~= Seq::<Seq<char>>::empty());
        return segs;
    }
    let mut start: usize = 0;
    let mut i: usize = 0;
    assert(t@.take(0) =~= Seq::<char>::empty());
    assert(segs.deep_view() + seq![t@.subrange(0, 0)] =~= split_on_slash(t@.take(0)));
    while i < n
        invariant
            cs@ == t@,
            n == t@.len(),
            start <= i <= n,
            segs.deep_view() + seq![t@.subrange(start as int, i as int)] == split_on_slash(
                t@.take(i as int),
            ),
        decreases n - i,
    {
        let ghost old_segs = segs.deep_view();
        assert(t@.take(i + 1).drop_last() =~= t@.take(i as int));
        if cs[i] == '/' {
            let ghost old_start = start;
            let seg = t.substring_char(start, i).to_owned();
            segs.push(seg);
            start = i + 1;
            assert(segs.deep_view() =~= old_segs.push(seg@));
            assert(t@.subrange(start as int, i + 1) =~= Seq::<char>::empty());
            assert(segs.deep_view() + seq![t@.subrange(start as int, i + 1)] =~= (old_segs
                + seq![t@.subrange(old_start as int, i as int)]).push(Seq::empty()));
        } else {
            assert(t@.subrange(start as int, i + 1) =~= t@.subrange(start as int, i as int).push(
                cs@[i as int],
            ));
            assert(segs.deep_view() + seq![t@.subrange(start as int, i + 1)] =~= (segs.deep_view()
                + seq![t@.subrange(start as int, i as int)]).update(
                old_segs.len() as int,
                t@.subrange(start as int, i as int).push(cs@[i as int]),
            ));
        }
        i = i + 1;
    }
    let last = t.substring_char(start, n).to_owned();
    let ghost before = segs.deep_view();
    segs.push(last);
    assert(t@.take(n as int) =~= t@);
    assert(segs.deep_view() =~= before + seq![t@.subrange(start as int, n as int)]);
    assert forall|i: int| 0 <= i < segs.len() implies slash_free(#[trigger] segs@[i]@) by {
        assert(segs.deep_view()[i] == segs@[i]@);
    }
    segs
}

/// The segments `segs` put back together with a `/` between each two.
pub open spec fn join_with_slash(segs: Seq<Seq<char>>) -> Seq<char>
    decreases segs.len(),
{
    if segs.len() == 0 {
        Seq::empty()
    } else if segs.len() == 1 {
        segs[0]
    } else {
        join_with_slash(segs.drop_last()) + seq!['/'] + segs.last()
    }
}

proof fn lemma_trim_start_suffix(s: Seq<char>)
    ensures
        ({
            let r = trim_start_slashes(s);
            &&& r.len() <= s.len()
            &&& s.skip(s.len() - r.len()) == r
            &&& r.len() == 0 || r[0] != '/'
            &&& forall|i: int| 0 <= i < s.len() - r.len() ==> s[i] == '/'
        }),
    decreases s.len(),
{
    if s.len() > 0 && s[0] == '/' {
        lemma_trim_start_suffix(s.drop_first());
        let r = trim_start_slashes(s);
        assert(s.skip(s.len() - r.len()) =~= s.drop_first().skip(s.drop_first().len() - r.len()));
        assert forall|i: int| 0 <= i < s.len() - r.len() implies s[i] == '/' by {
            if i > 0 {
                assert(s[i] == s.drop_first()[i - 1]);
            }
        }
    } else {
        assert(s.skip(0) =~= s);
    }
}

/// Trimming trailing slashes keeps a prefix, ending in something other than
/// `/`, and drops only slashes.
pub proof fn lemma_trim_end_prefix(s: Seq<char>)
    ensures
        ({
            let r = trim_end_slashes(s);
            &&& r.len() <= s.len()
            &&& s.take(r.len() as int) == r
            &&& r.len() == 0 || r.last() != '/'
            &&& forall|i: int| r.len() <= i < s.len() ==> s[i] == '/'
        }),
    decreases s.len(),
{
    if s.len() > 0 && s.last() == '/' {
        lemma_trim_end_prefix(s.drop_last());
        let r = trim_end_slashes(s);
        assert(s.take(r.len() as int) =~= s.drop_last().take(r.len() as int));
        assert forall|i: int| r.len() <= i < s.len() implies s[i] == '/' by {
            if i < s.len() - 1 {
                assert(s[i] == s.drop_last()[i]);
            }
        }
    } else {
        assert(s.take(s.len() as int) =~= s);
    }
}

/// A trimmed path neither starts nor ends with `/`, and is what stands
/// between the leading and the trailing run of slashes of the path.
pub proof fn lemma_trim_slashes_shape(s: Seq<char>)
    ensures
        ({
            let t = trim_slashes(s);
            &&& t.len() == 0 || (t[0] != '/' && t.last() != '/')
            &&& exists|lo: int|
                #![trigger s.subrange(lo, lo + t.len())]
                0 <= lo && lo + t.len() <= s.len() && s.subrange(lo, lo + t.len()) == t
                    && (forall|i: int| 0 <= i < lo ==> s[i] == '/')
                    && (forall|i: int| lo + t.len() <= i < s.len() ==> s[i] == '/')
        }),
{
    let a = trim_start_slashes(s);
    lemma_trim_start_suffix(s);
    lemma_trim_end_prefix(a);
    let t = trim_slashes(s);
    let lo = s.len() - a.len();
    if t.len() > 0 {
        assert(t[0] == a[0]);
    }
    assert(s.subrange(lo, lo + t.len()) =~= a.take(t.len() as int));
    assert forall|i: int| lo + t.len() <= i < s.len() implies s[i] == '/' by {
        assert(s[i] == a[i - lo]);
    }
}

/// Trimming twice trims no more than trimming once.
pub proof fn lemma_trim_slashes_idempotent(s: Seq<char>)
    ensures
        trim_slashes(trim_slashes(s)) == trim_slashes(s),
{
    lemma_trim_slashes_shape(s);
    let t = trim_slashes(s);
    assert(trim_start_slashes(t) == t);
    assert(trim_end_slashes(t) == t);
}

/// `last_slash` finds the last `/`: there is none after it, and it is `-1`
/// exactly for strings free of `/`.
pub proof fn lemma_last_slash(s: Seq<char>)
    ensures
        -1 <= last_slash(s) < s.len(),
        last_slash(s) == -1 <==> slash_free(s),
        last_slash(s) >= 0 ==> s[last_slash(s)] == '/' && slash_free(s.skip(last_slash(s) + 1)),
    decreases s.len(),
{
    if s.len() > 0 {
        lemma_last_slash(s.drop_last());
        if s.last() != '/' {
            let k = last_slash(s);
            if k >= 0 {
                assert forall|i: int| 0 <= i < s.skip(k + 1).len() implies #[trigger] s.skip(k + 1)[i]
                    != '/' by {
                    if k + 1 + i < s.len() - 1 {
                        assert(s.skip(k + 1)[i] == s.drop_last().skip(k + 1)[i]);
                    }
                }
            } else {
                assert forall|i: int| 0 <= i < s.len() implies s[i] != '/' by {
                    if i < s.len() - 1 {
                        assert(s[i] == s.drop_last()[i]);
                    }
                }
            }
        }
        if !slash_free(s.drop_last()) {
            let j = choose|j: int| 0 <= j < s.drop_last().len() && s.drop_last()[j] == '/';
            assert(s[j] == '/');
        }
    }
}

/// What `split_path` gives: a last component free of `/`, which is empty
/// only for the root, and, where the trimmed path holds a `/`, a parent such
/// that parent, `/` and name make up the trimmed path again; else an empty
/// parent and the whole trimmed path as the name.
pub proof fn lemma_split_path_parts(path: Seq<char>)
    ensures
        ({
            let t = trim_slashes(path);
            let (parent, name) = split_path_spec(path);
            &&& slash_free(name)
            &&& name.len() == 0 <==> t.len() == 0
            &&& parent.len() == 0 || parent[0] != '/'
            &&& slash_free(t) ==> parent.len() == 0 && name == t
            &&& !slash_free(t) ==> t == parent + seq!['/'] + name
        }),
{
    let t = trim_slashes(path);
    lemma_trim_slashes_shape(path);
    lemma_last_slash(t);
    let k = last_slash(t);
    if k >= 0 {
        assert(t =~= t.take(k) + seq!['/'] + t.skip(k + 1));
        if k == t.len() - 1 {
            assert(t.last() == '/');
        }
        if k > 0 {
            assert(t.take(k)[0] == t[0]);
        }
        assert(k != 0);
    }
}

/// Cutting at every `/` and joining the pieces with `/` gives back the
/// string, and no piece holds a `/`.
pub proof fn lemma_split_on_slash_join(s: Seq<char>)
    ensures
        split_on_slash(s).len() >= 1,
        join_with_slash(split_on_slash(s)) == s,
        forall|i: int| 0 <= i < split_on_slash(s).len() ==> slash_free(#[trigger] split_on_slash(s)[i]),
    decreases s.len(),
{
    if s.len() > 0 {
        let prev = split_on_slash(s.drop_last());
        lemma_split_on_slash_join(s.drop_last());
        let cur = split_on_slash(s);
        if s.last() == '/' {
            assert(cur.drop_last() =~= prev);
            assert(s =~= s.drop_last() + seq!['/'] + Seq::<char>::empty());
            assert forall|i: int| 0 <= i < cur.len() implies slash_free(#[trigger] cur[i]) by {
                if i < prev.len() {
                    assert(cur[i] == prev[i]);
                }
            }
        } else {
            let c = s.last();
            if prev.len() == 1 {
                assert(s =~= s.drop_last().push(c));
            } else {
                assert(cur.drop_last() =~= prev.drop_last());
                assert(s =~= s.drop_last().push(c));
                assert(join_with_slash(cur) =~= join_with_slash(prev).push(c));
            }
            assert forall|i: int| 0 <= i < cur.len() implies slash_free(#[trigger] cur[i]) by {
                if i < prev.len() - 1 {
                    assert(cur[i] == prev[i]);
                } else {
                    let p = prev.last();
                    assert(slash_free(prev[prev.len() - 1]));
                    assert forall|j: int| 0 <= j < cur[i].len() implies cur[i][j] != '/' by {
                        if j < p.len() {
                            assert(cur[i][j] == p[j]);
                        }
                    }
                }
            }
        }
    }
}

/// The directories walked to reach `dir` are free of `/` and, joined with
/// `/`, give the trimmed directory path; none are walked for the root.
pub proof fn lemma_dir_segments_join(dir: Seq<char>)
    ensures
        dir_segments_spec(dir).len() == 0 <==> trim_slashes(dir).len() == 0,
        join_with_slash(dir_segments_spec(dir)) == trim_slashes(dir),
        forall|i: int|
            0 <= i < dir_segments_spec(dir).len() ==> slash_free(
                #[trigger] dir_segments_spec(dir)[i],
            ),
{
    lemma_split_on_slash_join(trim_slashes(dir));
}

/// Trimming a directory path first changes nothing about the directories
/// walked to reach it.
pub proof fn lemma_dir_segments_of_trimmed(dir: Seq<char>)
    ensures
        dir_segments_spec(trim_slashes(dir)) == dir_segments_spec(dir),
{
    lemma_trim_slashes_idempotent(dir);
}

/// A `/` put in front of a path changes nothing once it is trimmed.
pub proof fn lemma_trim_slashes_leading_slash(p: Seq<char>)
    ensures
        trim_slashes(seq!['/'] + p) == trim_slashes(p),
{
    assert((seq!['/'] + p).drop_first() =~= p);
}

/// Leading slashes are trimmed from a concatenation up to the first
/// character that is not a slash.
pub proof fn lemma_trim_start_concat(a: Seq<char>, b: Seq<char>)
    requires
        b.len() > 0,
        b[0] != '/',
    ensures
        trim_start_slashes(a + b) == trim_start_slashes(a) + b,
    decreases a.len(),
{
    if a.len() == 0 {
        assert(a + b =~= b);
        assert(trim_start_slashes(a) + b =~= b);
    } else if a[0] == '/' {
        assert((a + b).drop_first() =~= a.drop_first() + b);
        lemma_trim_start_concat(a.drop_first(), b);
    } else {
        assert((a + b)[0] == a[0]);
    }
}

/// A string that ends with a character other than `/` loses nothing at its
/// end when trimmed, and one single `/` after it is all that goes.
pub proof fn lemma_trim_end_after(a: Seq<char>)
    requires
        a.len() > 0,
        a.last() != '/',
    ensures
        trim_end_slashes(a) == a,
        trim_end_slashes(a.push('/')) == a,
{
    assert(a.push('/').drop_last() =~= a);
}

/// Appending text free of `/` leaves the last `/` where it was.
pub proof fn lemma_last_slash_concat(a: Seq<char>, b: Seq<char>)
    requires
        slash_free(b),
    ensures
        last_slash(a + b) == last_slash(a),
    decreases b.len(),
{
    if b.len() == 0 {
        assert(a + b =~= a);
    } else {
        assert((a + b).drop_last() =~= a + b.drop_last());
        assert((a + b).last() == b.last());
        lemma_last_slash_concat(a, b.drop_last());
    }
}

/// Trimming the leading slashes of a path that ends with `/` leaves it
/// either empty or still ending with `/`.
pub proof fn lemma_trim_start_keeps_last(s: Seq<char>)
    requires
        s.len() > 0,
        s.last() == '/',
    ensures
        trim_start_slashes(s).len() == 0 || trim_start_slashes(s).last() == '/',
        trim_start_slashes(s).len() == 0 ==> forall|i: int| 0 <= i < s.len() ==> s[i] == '/',
{
    lemma_trim_start_suffix(s);
    let r = trim_start_slashes(s);
    if r.len() > 0 {
        assert(r.last() == s.skip(s.len() - r.len()).last());
    }
}

} // verus!
