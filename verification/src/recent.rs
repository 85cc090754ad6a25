use vstd::prelude::*;

verus! {

broadcast use {
    Seq::lemma_filter_push,
    Seq::lemma_filter_prepend,
    Seq::lemma_filter_contains_rev,
    vstd::seq_lib::group_filter_ensures,
};

/// How many recently used files are remembered.
pub const MAX_RECENT: usize = 10;

/// Whether two path texts name the same path as `std::path::Path` compares
/// them, component by component (so `a/b` and `a//b/` are the same path).
pub uninterp spec fn same_path(a: Seq<char>, b: Seq<char>) -> bool;

/// Calls `PartialEq::eq` of `std::path::Path` on the two texts taken as
/// paths. Claims that the result is `same_path` of the texts, that it does
/// not depend on their order, and that two identical texts are always the
/// same path (`Path`'s equality is `Eq`: reflexive and symmetric).
#[verifier::external_body]
pub(crate) fn paths_equal(a: &str, b: &str) -> (r: bool)
    ensures
        r == same_path(a@, b@),
        r == same_path(b@, a@),
        a@ == b@ ==> r,
{
    std::path::Path::new(a) == std::path::Path::new(b)
}

/// Two texts name one path: they are identical, or equal as paths (taken
/// either way round).
pub open spec fn paths_clash(a: Seq<char>, b: Seq<char>) -> bool {
    a == b || same_path(a, b) || same_path(b, a)
}

/// An entry survives a push of `path` unless it is the same path.
pub open spec fn kept_beside(path: Seq<char>) -> spec_fn(Seq<char>) -> bool {
    |q: Seq<char>| !paths_clash(q, path)
}

/// No two entries of the list name one path.
pub open spec fn distinct_paths(recent: Seq<Seq<char>>) -> bool {
    forall|i: int, j: int|
        0 <= i < j < recent.len() ==> !paths_clash(#[trigger] recent[i], #[trigger] recent[j])
}

/// The recent list after `path` was used: `path` first, then the earlier
/// entries that are not the same path in their old order, cut to
/// `MAX_RECENT` entries.
pub open spec fn pushed_recent(recent: Seq<Seq<char>>, path: Seq<char>) -> Seq<Seq<char>> {
    let kept = seq![path] + recent.filter(kept_beside(path));
    if kept.len() > MAX_RECENT {
        kept.take(MAX_RECENT as int)
    } else {
        kept
    }
}

/// Filtering keeps a sequence whose every element passes.
pub proof fn lemma_filter_keeps_all(s: Seq<Seq<char>>, pred: spec_fn(Seq<char>) -> bool)
    requires
        forall|i: int| 0 <= i < s.len() ==> pred(#[trigger] s[i]),
    ensures
        s.filter(pred) == s,
    decreases s.len(),
{
    if s.len() > 0 {
        let init = s.drop_last();
        assert forall|i: int| 0 <= i < init.len() implies pred(#[trigger] init[i]) by {
            assert(init[i] == s[i]);
        }
        lemma_filter_keeps_all(init, pred);
        assert(init.push(s.last()) =~= s);
    } else {
        assert(s.filter(pred) =~= s) by {
            reveal(Seq::filter);
        }
    }
}

/// After a push the path is first, no later entry is the same path, every
/// later entry was already in the list, and the list holds at most
/// `MAX_RECENT` entries.
pub proof fn law_push_recent_shape(recent: Seq<Seq<char>>, path: Seq<char>)
    ensures
        pushed_recent(recent, path).len() >= 1,
        pushed_recent(recent, path).len() <= MAX_RECENT,
        pushed_recent(recent, path)[0] == path,
        forall|i: int|
            1 <= i < pushed_recent(recent, path).len() ==> {
                let q = #[trigger] pushed_recent(recent, path)[i];
                !paths_clash(q, path) && recent.contains(q)
            },
{
    let f = recent.filter(kept_beside(path));
    let r = pushed_recent(recent, path);
    assert forall|i: int| 1 <= i < r.len() implies {
        let q = #[trigger] r[i];
        !paths_clash(q, path) && recent.contains(q)
    } by {
        assert(r[i] == f[i - 1]);
        assert(f.contains(f[i - 1]));
    }
}

/// Filtering a list whose entries name distinct paths keeps them distinct.
proof fn lemma_filter_keeps_distinct(s: Seq<Seq<char>>, pred: spec_fn(Seq<char>) -> bool)
    requires
        distinct_paths(s),
    ensures
        distinct_paths(s.filter(pred)),
    decreases s.len(),
{
    reveal(Seq::filter);
    if s.len() > 0 {
        let init = s.drop_last();
        assert forall|i: int, j: int| 0 <= i < j < init.len() implies !paths_clash(
            #[trigger] init[i],
            #[trigger] init[j],
        ) by {
            assert(init[i] == s[i] && init[j] == s[j]);
        }
        lemma_filter_keeps_distinct(init, pred);
        let f0 = init.filter(pred);
        if pred(s.last()) {
            let f = f0.push(s.last());
            assert(s.filter(pred) == f);
            assert forall|i: int, j: int| 0 <= i < j < f.len() implies !paths_clash(
                #[trigger] f[i],
                #[trigger] f[j],
            ) by {
                if j < f0.len() {
                    assert(f[i] == f0[i] && f[j] == f0[j]);
                } else {
                    assert(f0.contains(f0[i]));
                    assert(init.contains(f0[i]));
                    let k = choose|k: int| 0 <= k < init.len() && init[k] == f0[i];
                    assert(s[k] == f[i]);
                    assert(s[s.len() - 1] == f[j]);
                }
            }
        }
    }
}

/// A push keeps the entries naming distinct paths, and the pushed path is
/// named once.
pub proof fn law_push_recent_keeps_paths_distinct(recent: Seq<Seq<char>>, path: Seq<char>)
    requires
        distinct_paths(recent),
    ensures
        distinct_paths(pushed_recent(recent, path)),
        forall|i: int|
            1 <= i < pushed_recent(recent, path).len() ==> !paths_clash(
                #[trigger] pushed_recent(recent, path)[i],
                path,
            ),
{
    let pred = kept_beside(path);
    let f = recent.filter(pred);
    lemma_filter_keeps_distinct(recent, pred);
    let k = seq![path] + f;
    assert forall|i: int, j: int| 0 <= i < j < k.len() implies !paths_clash(
        #[trigger] k[i],
        #[trigger] k[j],
    ) by {
        if i == 0 {
            assert(k[j] == f[j - 1]);
            assert(pred(f[j - 1]));
        } else {
            assert(k[i] == f[i - 1] && k[j] == f[j - 1]);
        }
    }
    let r = pushed_recent(recent, path);
    assert forall|i: int, j: int| 0 <= i < j < r.len() implies !paths_clash(
        #[trigger] r[i],
        #[trigger] r[j],
    ) by {
        assert(r[i] == k[i] && r[j] == k[j]);
    }
    law_push_recent_shape(recent, path);
}

/// Using the same file twice in a row leaves the list as one use did.
pub proof fn law_push_recent_idempotent(recent: Seq<Seq<char>>, path: Seq<char>)
    ensures
        pushed_recent(pushed_recent(recent, path), path) == pushed_recent(recent, path),
{
    let pred = kept_beside(path);
    let f = recent.filter(pred);
    let m: int = if f.len() > MAX_RECENT - 1 { MAX_RECENT - 1 } else { f.len() as int };
    let r1 = pushed_recent(recent, path);
    assert(r1 =~= seq![path] + f.take(m));
    let t = f.take(m);
    assert forall|i: int| 0 <= i < t.len() implies pred(#[trigger] t[i]) by {
        assert(t[i] == f[i]);
    }
    lemma_filter_keeps_all(t, pred);
    assert(!pred(path));
    assert(r1.filter(pred) == t);
    assert(pushed_recent(r1, path) =~= r1);
}

/// A push onto a list of fewer than ten entries, none of which names the
/// pushed path, drops nothing: the path goes in front of the whole list.
pub proof fn law_push_recent_keeps_unrelated(recent: Seq<Seq<char>>, path: Seq<char>)
    requires
        recent.len() < 10,
        forall|i: int| 0 <= i < recent.len() ==> !paths_clash(#[trigger] recent[i], path),
    ensures
        pushed_recent(recent, path) == seq![path] + recent,
{
    let pred = kept_beside(path);
    assert forall|i: int| 0 <= i < recent.len() implies pred(#[trigger] recent[i]) by {}
    lemma_filter_keeps_all(recent, pred);
}

} // verus!
