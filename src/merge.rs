//! Reconciling a platform's entries into a shortcut collection.
use vstd::prelude::*;
use crate::shortcut::{converted, has_tag, views, PlatformEntry, Shortcut, ShortcutView};

verus! {

/// The shortcuts of `c` that do not carry `tag`.
pub open spec fn without_tag(c: Seq<ShortcutView>, tag: Seq<char>) -> Seq<ShortcutView> {
    c.filter(lacks_tag(tag))
}

/// The test that keeps a shortcut not carrying `tag`.
pub open spec fn lacks_tag(tag: Seq<char>) -> spec_fn(ShortcutView) -> bool {
    |s: ShortcutView| !has_tag(s, tag)
}

/// The shortcuts that a platform's entries become under `tag`.
pub open spec fn converted_all(entries: Seq<PlatformEntry>, tag: Seq<char>) -> Seq<ShortcutView> {
    entries.map_values(|e: PlatformEntry| converted(e, tag))
}

/// The collection after a successful fetch from the platform tagged `tag`:
/// every shortcut of that platform is replaced by the ones its entries become.
pub open spec fn merged(c: Seq<ShortcutView>, tag: Seq<char>, entries: Seq<PlatformEntry>) -> Seq<ShortcutView> {
    without_tag(c, tag) + converted_all(entries, tag)
}

/// Merges what the platform tagged `tag` returned into `current`.
///
/// On `Ok`, the platform's previous shortcuts are removed and one shortcut per
/// entry is appended; the other shortcuts keep their order. On `Err`, nothing
/// changes and the error is handed back for reporting.
pub fn update_platform_shortcuts(
    tag: &String,
    fetched: Result<Vec<PlatformEntry>, String>,
    current: &mut Vec<Shortcut>,
) -> (r: Result<(), String>)
    ensures
        match fetched {
            Ok(entries) => r is Ok && views(final(current)@) == merged(views(old(current)@), tag@, entries@),
            Err(e) => r == Err::<(), String>(e) && final(current)@ == old(current)@,
        },
{
    match fetched {
        Err(e) => Err(e),
        Ok(entries) => {
            remove_tagged(tag, current);
            let mut k: usize = 0;
            while k < entries.len()
                invariant
                    k <= entries@.len(),
                    views(current@) == without_tag(views(old(current)@), tag@) + converted_all(entries@.take(k as int), tag@),
                decreases entries@.len() - k,
            {
                let s = entries[k].to_shortcut(tag);
                let ghost prev = current@;
                current.push(s);
                proof {
                    assert(views(current@) =~= views(prev).push(s@));
                    assert(entries@.take(k as int + 1) =~= entries@.take(k as int).push(entries@[k as int]));
                    assert(converted_all(entries@.take(k as int + 1), tag@) =~= converted_all(entries@.take(k as int), tag@).push(converted(entries@[k as int], tag@)));
                    assert(views(current@) =~= without_tag(views(old(current)@), tag@) + converted_all(entries@.take(k as int + 1), tag@));
                }
                k = k + 1;
            }
            assert(entries@.take(entries@.len() as int) =~= entries@);
            Ok(())
        },
    }
}

/// Removes from `current` every shortcut that carries `tag`, keeping the
/// order of the others.
pub fn remove_tagged(tag: &String, current: &mut Vec<Shortcut>)
    ensures
        views(final(current)@) == without_tag(views(old(current)@), tag@),
{
    let ghost orig = views(current@);
    let n = current.len();
    let mut i: usize = 0;
    let mut j: usize = 0;
    while i < current.len()
        invariant
            j <= orig.len(),
            i == without_tag(orig.take(j as int), tag@).len(),
            views(current@) == without_tag(orig.take(j as int), tag@) + orig.skip(j as int),
            orig == views(old(current)@),
            current@.len() == i + orig.len() - j,
            orig.len() == n,
        decreases current@.len() - i,
    {
        proof {
            assert(views(current@)[i as int] == orig[j as int]);
            assert(orig.take(j as int + 1) =~= orig.take(j as int).push(orig[j as int]));
            orig.take(j as int).lemma_filter_push(orig[j as int], lacks_tag(tag@));
        }
        let ghost prev = current@;
        if current[i].has_tag(tag) {
            let _ = current.remove(i);
            assert(views(current@) =~= views(prev).remove(i as int));
            assert(views(current@) =~= without_tag(orig.take(j as int + 1), tag@) + orig.skip(j as int + 1));
        } else {
            i = i + 1;
            assert(views(current@) =~= without_tag(orig.take(j as int + 1), tag@) + orig.skip(j as int + 1));
        }
        j = j + 1;
    }
    proof {
        if j < orig.len() {
            assert(views(current@).len() > i);
        }
        assert(orig.take(orig.len() as int) =~= orig);
        assert(views(current@) =~= without_tag(orig, tag@));
    }
}

/// A filter that every element passes keeps the sequence whole.
proof fn lemma_filter_keeps_all(s: Seq<ShortcutView>, p: spec_fn(ShortcutView) -> bool)
    requires
        forall|i: int| 0 <= i < s.len() ==> p(s[i]),
    ensures
        s.filter(p) == s,
    decreases s.len(),
{
    if s.len() > 0 {
        let init = s.drop_last();
        lemma_filter_keeps_all(init, p);
        init.lemma_filter_push(s.last(), p);
        assert(init.push(s.last()) =~= s);
    } else {
        assert(s.filter(p) =~= s) by {
            reveal(Seq::filter);
        }
    }
}

/// No shortcut that is left after removing those carrying `tag` carries it.
proof fn lemma_without_tag_lacks(c: Seq<ShortcutView>, tag: Seq<char>)
    ensures
        forall|i: int| 0 <= i < without_tag(c, tag).len() ==> !has_tag(#[trigger] without_tag(c, tag)[i], tag),
{
    assert forall|i: int| 0 <= i < without_tag(c, tag).len() implies !has_tag(#[trigger] without_tag(c, tag)[i], tag) by {
        c.lemma_filter_pred(lacks_tag(tag), i);
    }
}

/// Merging the same platform output twice in a row gives the collection that
/// the first merge gave.
pub proof fn lemma_merge_idempotent(c: Seq<ShortcutView>, tag: Seq<char>, entries: Seq<PlatformEntry>)
    ensures
        merged(merged(c, tag, entries), tag, entries) == merged(c, tag, entries),
{
    let a = without_tag(c, tag);
    let b = converted_all(entries, tag);
    Seq::filter_distributes_over_add(a, b, lacks_tag(tag));
    lemma_without_tag_lacks(c, tag);
    lemma_filter_keeps_all(a, lacks_tag(tag));
    assert(b.filter(lacks_tag(tag)).len() == 0) by {
        assert forall|i: int| 0 <= i < b.len() implies has_tag(#[trigger] b[i], tag) by {
            assert(b[i].tags[0] == tag);
        }
        b.lemma_all_neg_filter_empty(lacks_tag(tag));
    }
    assert(a.filter(lacks_tag(tag)) + b.filter(lacks_tag(tag)) =~= a);
}

/// A merge under `tag` keeps every shortcut that does not carry `tag`
/// (untagged ones and those of other platforms), unchanged and in order,
/// ahead of the platform's new shortcuts.
pub proof fn lemma_merge_keeps_other_shortcuts(
    c: Seq<ShortcutView>,
    tag: Seq<char>,
    entries: Seq<PlatformEntry>,
    x: ShortcutView,
)
    requires
        c.contains(x),
        !has_tag(x, tag),
    ensures
        merged(c, tag, entries).contains(x),
        without_tag(c, tag).is_prefix_of(merged(c, tag, entries)),
{
    let i = choose|i: int| 0 <= i < c.len() && c[i] == x;
    c.lemma_filter_contains(lacks_tag(tag), i);
    let a = without_tag(c, tag);
    let j = choose|j: int| 0 <= j < a.len() && a[j] == x;
    assert(merged(c, tag, entries)[j] == x);
    assert(a =~= merged(c, tag, entries).take(a.len() as int));
}

/// When the platform tagged `tag` returns no entries, no shortcut carrying
/// `tag` remains.
pub proof fn lemma_merge_empty_removes_tagged(c: Seq<ShortcutView>, tag: Seq<char>)
    ensures
        forall|i: int| 0 <= i < merged(c, tag, Seq::empty()).len() ==> !has_tag(#[trigger] merged(c, tag, Seq::empty())[i], tag),
{
    lemma_without_tag_lacks(c, tag);
    assert(merged(c, tag, Seq::empty()) =~= without_tag(c, tag));
}

} // verus!
