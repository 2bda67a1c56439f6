use vstd::prelude::*;

use crate::models::{normal_key, normalized_map, Routes};

verus! {

/// The non-empty segments of a path, in order: the path is split on `/`
/// and empty components (from leading, trailing or repeated slashes) are
/// dropped. Defined one character at a time, from the left.
pub open spec fn segments(p: Seq<char>) -> Seq<Seq<char>>
    decreases p.len(),
{
    if p.len() == 0 {
        seq![]
    } else {
        let prev = segments(p.drop_last());
        let c = p.last();
        if c == '/' {
            prev
        } else if p.len() >= 2 && p[p.len() - 2] != '/' {
            prev.drop_last().push(prev.last().push(c))
        } else {
            prev.push(seq![c])
        }
    }
}

/// Segments rejoined with a single `/` between neighbours.
pub open spec fn join(s: Seq<Seq<char>>) -> Seq<char>
    decreases s.len(),
{
    if s.len() == 0 {
        seq![]
    } else if s.len() == 1 {
        s[0]
    } else {
        join(s.drop_last()) + seq!['/'] + s.last()
    }
}

/// The length of the longest prefix of `segs`, at most `k` segments long,
/// whose rejoined text is a key of `table`.
pub open spec fn longest_match(
    table: Map<Seq<char>, Seq<char>>,
    segs: Seq<Seq<char>>,
    k: nat,
) -> Option<nat>
    decreases k,
{
    if table.contains_key(join(segs.subrange(0, k as int))) {
        Some(k)
    } else if k == 0 {
        None
    } else {
        longest_match(table, segs, (k - 1) as nat)
    }
}

/// Where a request for `path` redirects: the destination of the longest
/// registered ancestor of the path, followed by `/` and the unmatched
/// segments when there are any; `None` when no ancestor is registered.
pub open spec fn redirect_target(table: Map<Seq<char>, Seq<char>>, path: Seq<char>) -> Option<
    Seq<char>,
> {
    let s = segments(path);
    match longest_match(table, s, s.len()) {
        None => None,
        Some(k) => {
            let dest = table[join(s.subrange(0, k as int))];
            if k == s.len() {
                Some(dest)
            } else {
                Some(dest + seq!['/'] + join(s.subrange(k as int, s.len() as int)))
            }
        },
    }
}

/// The texts of a sequence of strings.
pub open spec fn views(v: Seq<String>) -> Seq<Seq<char>> {
    v.map_values(|s: String| s@)
}

/// Splits a request path into its non-empty segments.
pub fn split_segments(path: &str) -> (r: Vec<String>)
    ensures
        views(r@) == segments(path@),
{
    let n = path.unicode_len();
    let mut out: Vec<String> = Vec::new();
    let mut start: usize = 0;
    let mut i: usize = 0;
    assert(path@.subrange(0, 0) =~= Seq::<char>::empty());
    assert(views(out@) =~= Seq::<Seq<char>>::empty());
    while i < n
        invariant
            n == path@.len(),
            start <= i <= n,
            forall|m: int| start <= m < i ==> path@[m] != '/',
            start == 0 || path@[start - 1] == '/',
            segments(path@.subrange(0, i as int)) == views(out@) + (if start < i {
                seq![path@.subrange(start as int, i as int)]
            } else {
                seq![]
            }),
        decreases n - i,
    {
        let c = path.get_char(i);
        let ghost p = path@.subrange(0, i as int + 1);
        assert(p.drop_last() =~= path@.subrange(0, i as int));
        assert(p.last() == c);
        if c == '/' {
            if start < i {
                let seg = path.substring_char(start, i).to_owned();
                let ghost before = out@;
                out.push(seg);
                assert(views(out@) =~= views(before).push(seg@));
            } else {
                assert(views(out@) + seq![] =~= views(out@));
            }
            start = i + 1;
        } else {
            if start < i {
                assert(p[p.len() - 2] == path@[i - 1]);
                assert(path@.subrange(start as int, i as int).push(c) =~= path@.subrange(
                    start as int,
                    i as int + 1,
                ));
            } else {
                assert(path@.subrange(start as int, i as int + 1) =~= seq![c]);
            }
        }
        i = i + 1;
    }
    if start < n {
        let seg = path.substring_char(start, n).to_owned();
        let ghost before = out@;
        out.push(seg);
        assert(views(out@) =~= views(before).push(seg@));
    } else {
        assert(views(out@) + seq![] =~= views(out@));
    }
    assert(path@.subrange(0, n as int) =~= path@);
    out
}

/// Joins `segs[from..to]` with `/` between neighbours.
pub(crate) fn join_range(segs: &Vec<String>, from: usize, to: usize) -> (r: String)
    requires
        from <= to <= segs@.len(),
    ensures
        r@ == join(views(segs@).subrange(from as int, to as int)),
{
    let mut r = String::new();
    let mut j: usize = from;

    assert(views(segs@).subrange(from as int, from as int) =~= Seq::<Seq<char>>::empty());
    while j < to
        invariant
            from <= j <= to <= segs@.len(),
            r@ == join(views(segs@).subrange(from as int, j as int)),
        decreases to - j,
    {
        let ghost next = views(segs@).subrange(from as int, j as int + 1);
        assert(next.drop_last() =~= views(segs@).subrange(from as int, j as int));
        proof {
            reveal_strlit("/");
        }
        assert("/"@ =~= seq!['/']);
        if j > from {
            r.append("/");
        } else {
            assert(Seq::<char>::empty() + segs@[j as int]@ =~= segs@[j as int]@);
        }
        r.append(segs[j].as_str());
        assert(next.last() == segs@[j as int]@);
        assert(r@ =~= join(next));
        j = j + 1;
    }
    r
}

/// Resolves a request path against a route table: the destination of the
/// longest registered ancestor of the path, with the unmatched segments
/// appended after a `/`; `None` when no ancestor, down to the empty key, is
/// registered.
pub fn resolve(routes: &Routes, path: &str) -> (r: Option<String>)
    ensures
        r is Some <==> redirect_target(routes@, path@) is Some,
        r is Some ==> r->0@ == redirect_target(routes@, path@)->0,
{
    let segs = split_segments(path);
    let n = segs.len();
    let mut k: usize = n;

    loop
        invariant
            k <= n,
            n == segs@.len(),
            views(segs@) == segments(path@),
            longest_match(routes@, views(segs@), n as nat) == longest_match(
                routes@,
                views(segs@),
                k as nat,
            ),
        decreases k,
    {
        let key = join_range(&segs, 0, k);
        match routes.fetch(key.as_str()) {
            Some(dest) => {
                if k == n {
                    return Some(dest);
                }
                proof {
                    reveal_strlit("/");
                }
                assert("/"@ =~= seq!['/']);
                let mut target = dest;
                target.append("/");
                let suffix = join_range(&segs, k, n);
                target.append(suffix.as_str());
                assert(longest_match(routes@, views(segs@), k as nat) == Some(k as nat));
                assert(target@ =~= routes@[key@] + seq!['/'] + suffix@);
                return Some(target);
            },
            None => {
                if k == 0 {
                    return None;
                }
                k = k - 1;
            },
        }
    }
}

/// A path whose last character is not `/` has at least one segment.
proof fn lemma_segments_nonempty(p: Seq<char>)
    requires
        p.len() > 0,
        p.last() != '/',
    ensures
        segments(p).len() > 0,
    decreases p.len(),
{
    if p.len() >= 2 && p[p.len() - 2] != '/' {
        lemma_segments_nonempty(p.drop_last());
    }
}

/// Splitting two paths joined by a slash gives the segments of the first
/// followed by those of the second.
pub proof fn lemma_segments_of_joined(a: Seq<char>, b: Seq<char>)
    ensures
        segments(a + seq!['/'] + b) == segments(a) + segments(b),
    decreases b.len(),
{
    let p = a + seq!['/'] + b;
    if b.len() == 0 {
        assert(p.drop_last() =~= a);
        assert(segments(a) + seq![] =~= segments(a));
    } else {
        let b0 = b.drop_last();
        let c = b.last();
        assert(p.drop_last() =~= a + seq!['/'] + b0);
        lemma_segments_of_joined(a, b0);
        let sa = segments(a);
        let sb0 = segments(b0);
        if c != '/' {
            if b0.len() > 0 && b0.last() != '/' {
                lemma_segments_nonempty(b0);
                assert(p[p.len() - 2] == b0.last());
                assert((sa + sb0).drop_last() =~= sa + sb0.drop_last());
                assert((sa + sb0).drop_last().push((sa + sb0).last().push(c)) =~= sa + sb0.drop_last().push(
                    sb0.last().push(c),
                ));
            } else {
                if b0.len() > 0 {
                    assert(p[p.len() - 2] == b0.last());
                } else {
                    assert(p[p.len() - 2] == '/');
                }
                assert((sa + sb0).push(seq![c]) =~= sa + sb0.push(seq![c]));
            }
        }
    }
}

/// What `longest_match` finds: the longest registered prefix of at most
/// `k` segments, or `None` when no such prefix is registered.
pub proof fn lemma_longest_match(table: Map<Seq<char>, Seq<char>>, segs: Seq<Seq<char>>, k: nat)
    ensures
        longest_match(table, segs, k) matches Some(j) ==> j <= k && table.contains_key(
            join(segs.subrange(0, j as int)),
        ) && forall|m: nat|
            j < m <= k ==> !table.contains_key(#[trigger] join(segs.subrange(0, m as int))),
        longest_match(table, segs, k) is None ==> forall|m: nat|
            m <= k ==> !table.contains_key(#[trigger] join(segs.subrange(0, m as int))),
    decreases k,
{
    if k > 0 {
        lemma_longest_match(table, segs, (k - 1) as nat);
    }
}

/// A registered key, written in normal form, resolves to exactly its
/// destination, with nothing appended.
pub proof fn lemma_registered_key_resolves(routes: Routes, key: Seq<char>)
    requires
        routes@.contains_key(key),
        join(segments(key)) == key,
    ensures
        redirect_target(routes@, key) == Some(routes@[key]),
{
    let s = segments(key);
    assert(s.subrange(0, s.len() as int) =~= s);
}

/// A request for a descendant `key/tail` of a registered key, where no key
/// between the two is registered, redirects to the key's destination
/// followed by `/` and the tail.
pub proof fn lemma_suffix_carried_over(routes: Routes, key: Seq<char>, tail: Seq<char>)
    requires
        routes@.contains_key(key),
        join(segments(key)) == key,
        segments(tail).len() > 0,
        join(segments(tail)) == tail,
        forall|m: nat|
            segments(key).len() < m <= segments(key + seq!['/'] + tail).len()
                ==> !routes@.contains_key(
                #[trigger] join(segments(key + seq!['/'] + tail).subrange(0, m as int)),
            ),
    ensures
        redirect_target(routes@, key + seq!['/'] + tail) == Some(
            routes@[key] + seq!['/'] + tail,
        ),
{
    let table = routes@;
    let path = key + seq!['/'] + tail;
    lemma_segments_of_joined(key, tail);
    let sk = segments(key);
    let st = segments(tail);
    let s = segments(path);
    assert(s.subrange(0, sk.len() as int) =~= sk);
    assert(s.subrange(sk.len() as int, s.len() as int) =~= st);
    lemma_longest_match(table, s, s.len());
    match longest_match(table, s, s.len()) {
        Some(j) => {
            if j < sk.len() {
                assert(!table.contains_key(join(s.subrange(0, sk.len() as int))));
            }
        },
        None => {
            assert(!table.contains_key(join(s.subrange(0, sk.len() as int))));
        },
    }
}

/// A path none of whose ancestors, down to the empty key, is registered
/// resolves to nothing, however deep it is.
pub proof fn lemma_unregistered_path_not_found(routes: Routes, path: Seq<char>)
    requires
        forall|m: nat|
            m <= segments(path).len() ==> !routes@.contains_key(
                #[trigger] join(segments(path).subrange(0, m as int)),
            ),
    ensures
        redirect_target(routes@, path) is None,
{
    let s = segments(path);
    lemma_longest_match(routes@, s, s.len());
}

/// Every segment is non-empty and holds no slash.
pub open spec fn clean_segments(s: Seq<Seq<char>>) -> bool {
    forall|i: int|
        0 <= i < s.len() ==> s[i].len() > 0 && forall|j: int|
            0 <= j < s[i].len() ==> #[trigger] s[i][j] != '/'
}

/// The segments of any path are clean.
proof fn lemma_segments_clean(p: Seq<char>)
    ensures
        clean_segments(segments(p)),
    decreases p.len(),
{
    if p.len() > 0 {
        let prev = segments(p.drop_last());
        lemma_segments_clean(p.drop_last());
        let c = p.last();
        if c != '/' {
            if p.len() >= 2 && p[p.len() - 2] != '/' {
                lemma_segments_nonempty(p.drop_last());
                let w = prev.last().push(c);
                let s = prev.drop_last().push(w);
                assert forall|i: int| 0 <= i < s.len() implies s[i].len() > 0 && forall|j: int|
                    0 <= j < s[i].len() ==> #[trigger] s[i][j] != '/' by {
                    if i < s.len() - 1 {
                        assert(s[i] == prev[i]);
                    } else {
                        assert(s[i] == w);
                        assert forall|j: int| 0 <= j < w.len() implies #[trigger] w[j] != '/' by {
                            if j < w.len() - 1 {
                                assert(w[j] == prev[prev.len() - 1][j]);
                            }
                        }
                    }
                }
            } else {
                let s = prev.push(seq![c]);
                assert forall|i: int| 0 <= i < s.len() implies s[i].len() > 0 && forall|j: int|
                    0 <= j < s[i].len() ==> #[trigger] s[i][j] != '/' by {
                    if i < s.len() - 1 {
                        assert(s[i] == prev[i]);
                    }
                }
            }
        }
    }
}

/// A non-empty word without slashes is a single segment.
proof fn lemma_single_segment(w: Seq<char>)
    requires
        w.len() > 0,
        forall|j: int| 0 <= j < w.len() ==> w[j] != '/',
    ensures
        segments(w) == seq![w],
    decreases w.len(),
{
    if w.len() == 1 {
        assert(w.drop_last() =~= Seq::<char>::empty());
        assert(segments(w.drop_last()) == Seq::<Seq<char>>::empty());
        assert(seq![w.last()] =~= w);
        assert(Seq::<Seq<char>>::empty().push(w) =~= seq![w]);
    } else {
        lemma_single_segment(w.drop_last());
        assert(w[w.len() - 2] == w.drop_last().last());
        assert(w.drop_last().push(w.last()) =~= w);
        let prev = seq![w.drop_last()];
        assert(prev.last() == w.drop_last());
        assert(prev.drop_last().push(prev.last().push(w.last())) =~= seq![w]);
    }
}

/// Splitting the join of clean segments gives them back.
proof fn lemma_segments_of_join(s: Seq<Seq<char>>)
    requires
        clean_segments(s),
    ensures
        segments(join(s)) == s,
    decreases s.len(),
{
    if s.len() == 1 {
        lemma_single_segment(s[0]);
        assert(seq![s[0]] =~= s);
    } else if s.len() > 1 {
        let init = s.drop_last();
        assert(clean_segments(init)) by {
            assert forall|i: int| 0 <= i < init.len() implies init[i] == s[i] by {}
        }
        lemma_segments_of_join(init);
        lemma_segments_of_joined(join(init), s.last());
        lemma_single_segment(s.last());
        assert(init + seq![s.last()] =~= s);
    }
}

/// Putting a key in normal form twice changes nothing more.
pub proof fn lemma_normal_key_idempotent(k: Seq<char>)
    ensures
        normal_key(normal_key(k)) == normal_key(k),
{
    lemma_segments_clean(k);
    lemma_segments_of_join(segments(k));
}

/// Every key of a table built from pairs is in normal form.
proof fn lemma_built_keys_normal(e: Seq<(String, String)>, key: Seq<char>)
    requires
        normalized_map(e).contains_key(key),
    ensures
        normal_key(key) == key,
    decreases e.len(),
{
    if e.len() > 0 {
        if key == normal_key(e.last().0@) {
            lemma_normal_key_idempotent(e.last().0@);
        } else {
            lemma_built_keys_normal(e.drop_last(), key);
        }
    }
}

/// In a table built from pairs, every registered key resolves to exactly
/// its destination, with nothing appended.
pub proof fn lemma_built_key_resolves(entries: Seq<(String, String)>, routes: Routes, key: Seq<char>)
    requires
        routes@ == normalized_map(entries),
        routes@.contains_key(key),
    ensures
        redirect_target(routes@, key) == Some(routes@[key]),
{
    lemma_built_keys_normal(entries, key);
    lemma_registered_key_resolves(routes, key);
}

/// Resolution depends on the table's contents and the path alone: two
/// resolutions against tables with the same contents, of the same path,
/// give the same result.
pub proof fn lemma_resolution_repeatable(first: Routes, second: Routes, path: Seq<char>)
    requires
        first@ == second@,
    ensures
        redirect_target(first@, path) == redirect_target(second@, path),
{
}

} // verus!
