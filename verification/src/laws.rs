//! The library's laws: properties that relate several operations, stated over
//! the comment-tree model and proved once and for all.
use vstd::prelude::*;
use crate::thread::CommentV;
use crate::thread::cv_count;
use crate::thread::cv_delete;
use crate::thread::cv_ids;
use crate::thread::cv_lookup;
use crate::thread::cv_toggle;
use crate::thread::set_toggle;
use crate::thread::tv_contains;
use crate::thread::tv_count;
use crate::thread::tv_delete;
use crate::thread::tv_ids;
use crate::thread::tv_lookup;
use crate::thread::tv_toggle;
use crate::thread::tv_update;
use crate::thread::cv_update;
use crate::thread::tv_append;
use crate::thread::cv_append;
use crate::page::page_end;
use crate::page::page_start;
use crate::page::page_view;
use crate::page::lemma_find_after_first;

verus! {

/// Toggling one (label, user) pair twice on a tag set restores the set.
pub proof fn lemma_set_toggle_twice(s: Set<(Seq<char>, Seq<char>)>, p: (Seq<char>, Seq<char>))
    ensures
        set_toggle(set_toggle(s, p), p) == s,
{
    if s.contains(p) {
        assert(set_toggle(set_toggle(s, p), p) =~= s);
    } else {
        assert(set_toggle(set_toggle(s, p), p) =~= s);
    }
}

/// Toggling the same (label, user) pair twice on one comment's subtree
/// restores the subtree exactly.
pub proof fn lemma_cv_toggle_twice(c: CommentV, id: Seq<char>, p: (Seq<char>, Seq<char>))
    ensures
        cv_toggle(cv_toggle(c, id, p), id, p) == c,
    decreases c,
{
    lemma_tv_toggle_twice(c.replies, id, p);
    if c.id == id {
        lemma_set_toggle_twice(c.metadata, p);
    }
}

/// Toggling the same (label, user) pair twice on a thread restores it: the
/// idempotence law for metadata toggling.
pub proof fn lemma_tv_toggle_twice(s: Seq<CommentV>, id: Seq<char>, p: (Seq<char>, Seq<char>))
    ensures
        tv_toggle(tv_toggle(s, id, p), id, p) == s,
    decreases s,
{
    if s.len() > 0 {
        let rest = s.subrange(1, s.len() as int);
        lemma_cv_toggle_twice(s[0], id, p);
        lemma_tv_toggle_twice(rest, id, p);
        let once = tv_toggle(s, id, p);
        assert(once[0] == cv_toggle(s[0], id, p));
        assert(once.subrange(1, once.len() as int) =~= tv_toggle(rest, id, p));
        assert(tv_toggle(once, id, p) =~= s);
    }
}

/// Concatenation splits membership.
pub proof fn lemma_concat_contains(a: Seq<Seq<char>>, b: Seq<Seq<char>>, x: Seq<char>)
    ensures
        (a + b).contains(x) <==> a.contains(x) || b.contains(x),
{
    if a.contains(x) {
        let i = choose|i: int| 0 <= i < a.len() && a[i] == x;
        assert((a + b)[i] == x);
    }
    if b.contains(x) {
        let i = choose|i: int| 0 <= i < b.len() && b[i] == x;
        assert((a + b)[a.len() + i] == x);
    }
    if (a + b).contains(x) {
        let i = choose|i: int| 0 <= i < (a + b).len() && (a + b)[i] == x;
        if i < a.len() {
            assert(a[i] == x);
        } else {
            assert(b[i - a.len()] == x);
        }
    }
}

/// A duplicate-free concatenation has duplicate-free halves that share
/// nothing.
pub proof fn lemma_no_dup_concat(a: Seq<Seq<char>>, b: Seq<Seq<char>>)
    requires
        (a + b).no_duplicates(),
    ensures
        a.no_duplicates(),
        b.no_duplicates(),
        forall|x: Seq<char>| !(a.contains(x) && b.contains(x)),
{
    assert forall|i: int, j: int| 0 <= i < a.len() && 0 <= j < a.len() && i != j implies a[i]
        != a[j] by {
        assert((a + b)[i] == a[i]);
        assert((a + b)[j] == a[j]);
    }
    assert forall|i: int, j: int| 0 <= i < b.len() && 0 <= j < b.len() && i != j implies b[i]
        != b[j] by {
        assert((a + b)[a.len() + i] == b[i]);
        assert((a + b)[a.len() + j] == b[j]);
    }
    assert forall|x: Seq<char>| !(a.contains(x) && b.contains(x)) by {
        if a.contains(x) && b.contains(x) {
            let i = choose|i: int| 0 <= i < a.len() && a[i] == x;
            let j = choose|j: int| 0 <= j < b.len() && b[j] == x;
            assert((a + b)[i] == x);
            assert((a + b)[a.len() + j] == x);
        }
    }
}

/// A comment's subtree holds an id exactly when the id sequence lists it.
pub proof fn lemma_cv_contains_ids(c: CommentV, d: Seq<char>)
    ensures
        cv_lookup(c, d) is Some <==> cv_ids(c).contains(d),
    decreases c,
{
    lemma_tv_contains_ids(c.replies, d);
    lemma_concat_contains(seq![c.id], tv_ids(c.replies), d);
    if c.id == d {
        assert(seq![c.id].contains(d)) by {
            assert(seq![c.id][0] == d);
        }
    }
    if seq![c.id].contains(d) {
        let i = choose|i: int| 0 <= i < 1 && seq![c.id][i] == d;
        assert(c.id == d);
    }
}

/// A thread holds an id exactly when its id sequence lists it.
pub proof fn lemma_tv_contains_ids(s: Seq<CommentV>, d: Seq<char>)
    ensures
        tv_contains(s, d) <==> tv_ids(s).contains(d),
    decreases s,
{
    if s.len() > 0 {
        let rest = s.subrange(1, s.len() as int);
        lemma_cv_contains_ids(s[0], d);
        lemma_tv_contains_ids(rest, d);
        lemma_concat_contains(cv_ids(s[0]), tv_ids(rest), d);
    }
}

/// Deleting an id that a comment's subtree does not hold changes nothing.
pub proof fn lemma_cv_delete_absent(c: CommentV, id: Seq<char>)
    requires
        cv_lookup(c, id) is None,
    ensures
        cv_delete(c, id) == c,
    decreases c,
{
    lemma_tv_delete_absent(c.replies, id);
}

/// Deleting an id that a thread does not hold changes nothing.
pub proof fn lemma_tv_delete_absent(s: Seq<CommentV>, id: Seq<char>)
    requires
        !tv_contains(s, id),
    ensures
        tv_delete(s, id) == s,
    decreases s,
{
    if s.len() > 0 {
        let rest = s.subrange(1, s.len() as int);
        lemma_cv_delete_absent(s[0], id);
        lemma_tv_delete_absent(rest, id);
        assert(tv_delete(s, id) =~= s);
    }
}

/// After a delete, no lookup for the deleted id succeeds, at any depth.
pub proof fn lemma_cv_delete_gone(c: CommentV, id: Seq<char>)
    requires
        c.id != id,
    ensures
        cv_lookup(cv_delete(c, id), id) is None,
    decreases c,
{
    lemma_tv_delete_gone(c.replies, id);
}

/// After a delete, the thread no longer holds the deleted id.
pub proof fn lemma_tv_delete_gone(s: Seq<CommentV>, id: Seq<char>)
    ensures
        !tv_contains(tv_delete(s, id), id),
    decreases s,
{
    if s.len() > 0 {
        let rest = s.subrange(1, s.len() as int);
        lemma_tv_delete_gone(rest, id);
        if s[0].id != id {
            lemma_cv_delete_gone(s[0], id);
            let r = tv_delete(s, id);
            assert(r[0] == cv_delete(s[0], id));
            assert(r.subrange(1, r.len() as int) =~= tv_delete(rest, id));
        }
    }
}

/// The delete-cascade law: removing a comment that has `R` nested replies
/// removes exactly `R + 1` entries from a duplicate-free tree.
pub proof fn lemma_cv_delete_count(c0: CommentV, id: Seq<char>)
    requires
        cv_ids(c0).no_duplicates(),
        c0.id != id,
        cv_lookup(c0, id) is Some,
    ensures
        cv_count(cv_delete(c0, id)) + cv_count(cv_lookup(c0, id)->Some_0) == cv_count(c0),
    decreases c0,
{
    lemma_no_dup_concat(seq![c0.id], tv_ids(c0.replies));
    lemma_tv_delete_count(c0.replies, id);
}

/// The delete-cascade law over a thread: the total comment count drops by the
/// removed comment's whole subtree size, and only by that.
pub proof fn lemma_tv_delete_count(s: Seq<CommentV>, id: Seq<char>)
    requires
        tv_ids(s).no_duplicates(),
        tv_contains(s, id),
    ensures
        tv_count(tv_delete(s, id)) + cv_count(tv_lookup(s, id)->Some_0) == tv_count(s),
    decreases s,
{
    let rest = s.subrange(1, s.len() as int);
    lemma_no_dup_concat(cv_ids(s[0]), tv_ids(rest));
    if s[0].id == id {
        assert(cv_ids(s[0])[0] == id);
        assert(cv_ids(s[0]).contains(id));
        assert(!tv_ids(rest).contains(id));
        lemma_tv_contains_ids(rest, id);
        lemma_tv_delete_absent(rest, id);
    } else {
        match cv_lookup(s[0], id) {
            Some(c) => {
                lemma_cv_contains_ids(s[0], id);
                assert(!tv_ids(rest).contains(id));
                lemma_tv_contains_ids(rest, id);
                lemma_tv_delete_absent(rest, id);
                lemma_cv_delete_count(s[0], id);
                let q = tv_delete(s, id);
                assert(q[0] == cv_delete(s[0], id));
                assert(q.subrange(1, q.len() as int) =~= rest);
            },
            None => {
                lemma_cv_delete_absent(s[0], id);
                lemma_cv_contains_ids(s[0], id);
                lemma_tv_delete_count(rest, id);
                let q = tv_delete(s, id);
                assert(q[0] == s[0]);
                assert(q.subrange(1, q.len() as int) =~= tv_delete(rest, id));
            },
        }
    }
}

/// What a lookup finds lies inside the searched subtree: every id of the
/// found comment's subtree is an id of the searched one.
pub proof fn lemma_cv_lookup_ids_subset(c0: CommentV, id: Seq<char>, d: Seq<char>)
    ensures
        cv_lookup(c0, id) matches Some(c) && cv_ids(c).contains(d) ==> cv_ids(c0).contains(d),
    decreases c0,
{
    lemma_tv_lookup_ids_subset(c0.replies, id, d);
    if c0.id != id {
        match tv_lookup(c0.replies, id) {
            Some(c) => {
                if cv_ids(c).contains(d) {
                    lemma_concat_contains(seq![c0.id], tv_ids(c0.replies), d);
                }
            },
            None => {},
        }
    }
}

/// What a lookup finds lies inside the searched thread.
pub proof fn lemma_tv_lookup_ids_subset(s: Seq<CommentV>, id: Seq<char>, d: Seq<char>)
    ensures
        tv_lookup(s, id) matches Some(c) && cv_ids(c).contains(d) ==> tv_ids(s).contains(d),
    decreases s,
{
    if s.len() > 0 {
        let rest = s.subrange(1, s.len() as int);
        lemma_cv_lookup_ids_subset(s[0], id, d);
        lemma_tv_lookup_ids_subset(rest, id, d);
        lemma_concat_contains(cv_ids(s[0]), tv_ids(rest), d);
    }
}

/// The delete-cascade law, second half: after removing a comment, no id of
/// its former subtree is found anywhere in a duplicate-free tree.
pub proof fn lemma_cv_delete_subtree_gone(c0: CommentV, id: Seq<char>, d: Seq<char>)
    requires
        cv_ids(c0).no_duplicates(),
        c0.id != id,
        cv_lookup(c0, id) is Some,
        cv_ids(cv_lookup(c0, id)->Some_0).contains(d),
    ensures
        !cv_ids(cv_delete(c0, id)).contains(d),
    decreases c0,
{
    let c = cv_lookup(c0, id)->Some_0;
    lemma_no_dup_concat(seq![c0.id], tv_ids(c0.replies));
    lemma_tv_lookup_ids_subset(c0.replies, id, d);
    lemma_tv_delete_subtree_gone(c0.replies, id, d);
    lemma_concat_contains(seq![c0.id], tv_ids(tv_delete(c0.replies, id)), d);
    assert(seq![c0.id].contains(d) ==> c0.id == d) by {
        if seq![c0.id].contains(d) {
            let i = choose|i: int| 0 <= i < 1 && seq![c0.id][i] == d;
        }
    }
    if c0.id == d {
        assert(seq![c0.id][0] == d);
        assert(seq![c0.id].contains(d));
        assert(tv_ids(c0.replies).contains(d));
    }
}

/// The delete-cascade law, second half, over a thread: deleting a comment
/// removes exactly its whole subtree, so every id it held stops resolving.
pub proof fn lemma_tv_delete_subtree_gone(s: Seq<CommentV>, id: Seq<char>, d: Seq<char>)
    requires
        tv_ids(s).no_duplicates(),
        tv_contains(s, id),
        cv_ids(tv_lookup(s, id)->Some_0).contains(d),
    ensures
        !tv_ids(tv_delete(s, id)).contains(d),
        !tv_contains(tv_delete(s, id), d),
    decreases s,
{
    let rest = s.subrange(1, s.len() as int);
    let c = tv_lookup(s, id)->Some_0;
    lemma_no_dup_concat(cv_ids(s[0]), tv_ids(rest));
    if s[0].id == id {
        assert(cv_ids(s[0])[0] == id);
        assert(cv_ids(s[0]).contains(id));
        lemma_tv_contains_ids(rest, id);
        lemma_tv_delete_absent(rest, id);
        assert(c == s[0]);
    } else {
        match cv_lookup(s[0], id) {
            Some(c1) => {
                lemma_cv_contains_ids(s[0], id);
                lemma_tv_contains_ids(rest, id);
                lemma_tv_delete_absent(rest, id);
                lemma_cv_delete_subtree_gone(s[0], id, d);
                lemma_cv_lookup_ids_subset(s[0], id, d);
                let q = tv_delete(s, id);
                assert(q =~= seq![cv_delete(s[0], id)] + rest);
                lemma_concat_contains(cv_ids(cv_delete(s[0], id)), tv_ids(rest), d);
                assert(tv_ids(q) =~= cv_ids(cv_delete(s[0], id)) + tv_ids(rest)) by {
                    assert(q[0] == cv_delete(s[0], id));
                    assert(q.subrange(1, q.len() as int) =~= rest);
                }
            },
            None => {
                lemma_cv_delete_absent(s[0], id);
                lemma_tv_delete_subtree_gone(rest, id, d);
                lemma_tv_lookup_ids_subset(rest, id, d);
                let q = tv_delete(s, id);
                assert(q[0] == s[0]);
                assert(q.subrange(1, q.len() as int) =~= tv_delete(rest, id));
                lemma_concat_contains(cv_ids(s[0]), tv_ids(tv_delete(rest, id)), d);
            },
        }
    }
    lemma_tv_contains_ids(tv_delete(s, id), d);
}

/// A lookup that succeeds returns a comment carrying the looked-up id.
pub proof fn lemma_cv_lookup_id(c: CommentV, d: Seq<char>)
    ensures
        cv_lookup(c, d) matches Some(x) ==> x.id == d,
    decreases c,
{
    lemma_tv_lookup_id(c.replies, d);
}

/// A lookup that succeeds returns a comment carrying the looked-up id.
pub proof fn lemma_tv_lookup_id(s: Seq<CommentV>, d: Seq<char>)
    ensures
        tv_lookup(s, d) matches Some(x) ==> x.id == d,
    decreases s,
{
    if s.len() > 0 {
        lemma_cv_lookup_id(s[0], d);
        lemma_tv_lookup_id(s.subrange(1, s.len() as int), d);
    }
}

/// A content update maps every lookup: the same comments are found, each with
/// the update applied to its subtree and nothing else changed.
pub proof fn lemma_cv_update_lookup(c: CommentV, id: Seq<char>, content: Seq<char>, d: Seq<char>)
    ensures
        cv_lookup(cv_update(c, id, content), d) == match cv_lookup(c, d) {
            Some(x) => Some(cv_update(x, id, content)),
            None => None::<CommentV>,
        },
    decreases c,
{
    lemma_tv_update_lookup(c.replies, id, content, d);
}

/// A content update maps every lookup across a thread.
pub proof fn lemma_tv_update_lookup(s: Seq<CommentV>, id: Seq<char>, content: Seq<char>, d: Seq<char>)
    ensures
        tv_lookup(tv_update(s, id, content), d) == match tv_lookup(s, d) {
            Some(x) => Some(cv_update(x, id, content)),
            None => None::<CommentV>,
        },
    decreases s,
{
    if s.len() > 0 {
        let rest = s.subrange(1, s.len() as int);
        lemma_cv_update_lookup(s[0], id, content, d);
        lemma_tv_update_lookup(rest, id, content, d);
        let u = tv_update(s, id, content);
        assert(u[0] == cv_update(s[0], id, content));
        assert(u.subrange(1, u.len() as int) =~= tv_update(rest, id, content));
    }
}

/// The upsert-then-lookup law, update path: after a content update, looking
/// the id up finds the same comment with the new content, and looking any
/// other id up finds a comment whose content, author and timestamp are
/// untouched.
pub proof fn lemma_update_then_lookup(s: Seq<CommentV>, id: Seq<char>, content: Seq<char>, d: Seq<char>)
    ensures
        d == id && tv_contains(s, id) ==> ({
            let found = tv_lookup(tv_update(s, id, content), id);
            &&& found is Some
            &&& found->Some_0.content == content
            &&& found->Some_0.id == id
            &&& found->Some_0.user_id == tv_lookup(s, id)->Some_0.user_id
            &&& found->Some_0.created_at == tv_lookup(s, id)->Some_0.created_at
        }),
        d != id ==> match tv_lookup(tv_update(s, id, content), d) {
            Some(y) => tv_lookup(s, d) matches Some(x) && y.id == x.id && y.content == x.content
                && y.user_id == x.user_id && y.created_at == x.created_at,
            None => tv_lookup(s, d) is None,
        },
{
    lemma_tv_update_lookup(s, id, content, d);
    lemma_tv_lookup_id(s, d);
}

/// Appending a fresh comment at the end of a thread makes it findable.
pub proof fn lemma_push_find(s: Seq<CommentV>, x: CommentV)
    requires
        !tv_contains(s, x.id),
    ensures
        tv_lookup(s.push(x), x.id) == Some(x),
    decreases s,
{
    if s.len() == 0 {
        assert(s.push(x)[0] == x);
        assert(cv_lookup(x, x.id) == Some(x));
    } else {
        let rest = s.subrange(1, s.len() as int);
        assert(s.push(x)[0] == s[0]);
        assert(s.push(x).subrange(1, s.push(x).len() as int) =~= rest.push(x));
        lemma_push_find(rest, x);
    }
}

/// A fresh comment inserted under a parent becomes findable by its id: the
/// new-id half of the upsert-then-lookup law, nested-insert path.
pub proof fn lemma_cv_append_finds_new(c: CommentV, parent: Seq<char>, x: CommentV)
    requires
        cv_lookup(c, x.id) is None,
    ensures
        cv_append(c, parent, x) matches Some(c2) ==> cv_lookup(c2, x.id) == Some(x),
    decreases c,
{
    if c.id == parent {
        lemma_push_find(c.replies, x);
    } else {
        lemma_tv_append_finds_new(c.replies, parent, x);
    }
}

/// A fresh comment inserted under a parent becomes findable by its id.
pub proof fn lemma_tv_append_finds_new(s: Seq<CommentV>, parent: Seq<char>, x: CommentV)
    requires
        !tv_contains(s, x.id),
    ensures
        tv_append(s, parent, x) matches Some(s2) ==> tv_lookup(s2, x.id) == Some(x),
    decreases s,
{
    if s.len() > 0 {
        let rest = s.subrange(1, s.len() as int);
        lemma_cv_append_finds_new(s[0], parent, x);
        lemma_tv_append_finds_new(rest, parent, x);
        match cv_append(s[0], parent, x) {
            Some(c2) => {
                let s2 = seq![c2] + rest;
                assert(s2[0] == c2);
            },
            None => {
                match tv_append(rest, parent, x) {
                    Some(r2) => {
                        let s2 = seq![s[0]] + r2;
                        assert(s2[0] == s[0]);
                        assert(s2.subrange(1, s2.len() as int) =~= r2);
                    },
                    None => {},
                }
            },
        }
    }
}

/// Looking up any other id is unmoved by appending a fresh leaf at the end.
pub proof fn lemma_push_lookup_other(s: Seq<CommentV>, x: CommentV, d: Seq<char>)
    requires
        d != x.id,
        x.replies.len() == 0,
    ensures
        tv_lookup(s.push(x), d) == tv_lookup(s, d),
    decreases s,
{
    if s.len() == 0 {
        assert(s.push(x)[0] == x);
        assert(cv_lookup(x, d) is None);
        assert(s.push(x).subrange(1, 1int) =~= Seq::<CommentV>::empty());
        assert(s.push(x).len() == 1);
        assert(cv_lookup(s.push(x)[0], d) is None);
        assert(tv_lookup(s.push(x), d) == tv_lookup(
            s.push(x).subrange(1, s.push(x).len() as int),
            d,
        ));
        assert(tv_lookup(s.push(x).subrange(1, s.push(x).len() as int), d) is None);
        assert(tv_lookup(s, d) is None);
    } else {
        let rest = s.subrange(1, s.len() as int);
        assert(s.push(x)[0] == s[0]);
        assert(s.push(x).subrange(1, s.push(x).len() as int) =~= rest.push(x));
        lemma_push_lookup_other(rest, x, d);
        match cv_lookup(s[0], d) {
            Some(y) => {
                assert(tv_lookup(s.push(x), d) == Some(y));
                assert(tv_lookup(s, d) == Some(y));
            },
            None => {
                assert(tv_lookup(s.push(x), d) == tv_lookup(rest.push(x), d));
                assert(tv_lookup(s, d) == tv_lookup(rest, d));
            },
        }
    }
}

/// Inserting a fresh comment under a parent leaves every other comment's
/// fields where they were: the preservation half of the upsert-then-lookup
/// law, insert path. (A comment on the insertion path keeps its identity,
/// content, author and timestamp; only its reply thread grows.)
pub proof fn lemma_cv_append_preserves(c: CommentV, parent: Seq<char>, x: CommentV, d: Seq<char>)
    requires
        d != x.id,
        x.replies.len() == 0,
    ensures
        cv_append(c, parent, x) matches Some(c2) ==> match cv_lookup(c2, d) {
            Some(y) => cv_lookup(c, d) matches Some(z) && y.id == z.id && y.content == z.content
                && y.user_id == z.user_id && y.created_at == z.created_at,
            None => cv_lookup(c, d) is None,
        },
    decreases c,
{
    if c.id == parent {
        lemma_push_lookup_other(c.replies, x, d);
    } else {
        lemma_tv_append_preserves(c.replies, parent, x, d);
    }
}

/// Inserting a fresh comment under a parent leaves every other comment's
/// fields where they were, across a thread.
pub proof fn lemma_tv_append_preserves(s: Seq<CommentV>, parent: Seq<char>, x: CommentV, d: Seq<char>)
    requires
        d != x.id,
        x.replies.len() == 0,
    ensures
        tv_append(s, parent, x) matches Some(s2) ==> match tv_lookup(s2, d) {
            Some(y) => tv_lookup(s, d) matches Some(z) && y.id == z.id && y.content == z.content
                && y.user_id == z.user_id && y.created_at == z.created_at,
            None => tv_lookup(s, d) is None,
        },
    decreases s,
{
    if s.len() > 0 {
        let rest = s.subrange(1, s.len() as int);
        lemma_cv_append_preserves(s[0], parent, x, d);
        lemma_tv_append_preserves(rest, parent, x, d);
        match cv_append(s[0], parent, x) {
            Some(c2) => {
                let s2 = seq![c2] + rest;
                assert(s2[0] == c2);
                assert(s2.subrange(1, s2.len() as int) =~= rest);
            },
            None => {
                match tv_append(rest, parent, x) {
                    Some(r2) => {
                        let s2 = seq![s[0]] + r2;
                        assert(s2[0] == s[0]);
                        assert(s2.subrange(1, s2.len() as int) =~= r2);
                    },
                    None => {},
                }
            },
        }
    }
}

/// A root-level insert leaves every other comment's lookup untouched.
pub proof fn lemma_root_insert_preserves(s: Seq<CommentV>, x: CommentV, d: Seq<char>)
    requires
        d != x.id,
        x.replies.len() == 0,
    ensures
        tv_lookup(s.push(x), d) == tv_lookup(s, d),
{
    lemma_push_lookup_other(s, x, d);
}

/// Pagination, cursor chaining: with duplicate-free top-level ids, a cursor
/// naming the comment at index `k` starts the next page exactly at `k + 1`.
pub proof fn lemma_cursor_at_index(s: Seq<CommentV>, k: int)
    requires
        0 <= k < s.len(),
        forall|i: int, j: int| 0 <= i < j < s.len() ==> s[i].id != s[j].id,
    ensures
        page_start(s, Some(s[k].id)) == k + 1,
{
    lemma_find_after_first(s, s[k].id, k);
}

/// The successive pages of a thread, reading from `start` with a fixed limit.
pub open spec fn paged_from(s: Seq<CommentV>, limit: nat, start: int) -> Seq<CommentV>
    decreases s.len() - start
        when 0 <= start <= s.len() && limit > 0
{
    if start >= s.len() {
        Seq::empty()
    } else {
        s.subrange(start, page_end(s, start, limit)) + paged_from(
            s,
            limit,
            page_end(s, start, limit),
        )
    }
}

/// How many pages that reading takes.
pub open spec fn page_count(s: Seq<CommentV>, limit: nat, start: int) -> nat
    decreases s.len() - start
        when 0 <= start <= s.len() && limit > 0
{
    if start >= s.len() {
        0nat
    } else {
        1 + page_count(s, limit, page_end(s, start, limit))
    }
}

/// Pagination, coverage: concatenating the successive pages reproduces the
/// thread's order exactly once each.
pub proof fn lemma_paged_from_covers(s: Seq<CommentV>, limit: nat, start: int)
    requires
        limit > 0,
        0 <= start <= s.len(),
    ensures
        paged_from(s, limit, start) == s.subrange(start, s.len() as int),
    decreases s.len() - start,
{
    if start >= s.len() {
        assert(paged_from(s, limit, start) =~= s.subrange(start, s.len() as int));
    } else {
        let end = page_end(s, start, limit);
        lemma_paged_from_covers(s, limit, end);
        assert(s.subrange(start, end) + s.subrange(end, s.len() as int) =~= s.subrange(
            start,
            s.len() as int,
        ));
    }
}

/// Pagination, coverage from the beginning: all pages together are the whole
/// thread.
pub proof fn lemma_paged_covers_all(s: Seq<CommentV>, limit: nat)
    requires
        limit > 0,
    ensures
        paged_from(s, limit, 0) == s,
{
    lemma_paged_from_covers(s, limit, 0);
    assert(s.subrange(0, s.len() as int) =~= s);
}

/// Pagination, page count: reading `N` comments with limit `L` takes exactly
/// the rounded-up quotient of pages, characterized without division: the
/// count is the least `c` with `N <= c * L`.
pub proof fn lemma_page_count_bounds(s: Seq<CommentV>, limit: nat, start: int)
    requires
        limit > 0,
        0 <= start <= s.len(),
    ensures
        start == s.len() ==> page_count(s, limit, start) == 0,
        start < s.len() ==> ({
            let c = page_count(s, limit, start) as int;
            (c - 1) * (limit as int) < s.len() - start <= c * (limit as int)
        }),
    decreases s.len() - start,
{
    if start < s.len() {
        let end = page_end(s, start, limit);
        lemma_page_count_bounds(s, limit, end);
        let c = page_count(s, limit, start) as int;
        let c2 = page_count(s, limit, end) as int;
        let l = limit as int;
        if end == s.len() {
            assert(c == 1 + c2);
            assert(c2 == 0);
            assert((c - 1) * l < s.len() - start <= c * l) by (nonlinear_arith)
                requires
                    c == 1,
                    l > 0,
                    0 < s.len() - start <= l,
            ;
        } else {
            assert(end == start + l);
            assert((c2 - 1) * l < s.len() - end <= c2 * l);
            assert((c - 1) * l < s.len() - start <= c * l) by (nonlinear_arith)
                requires
                    c == 1 + c2,
                    l > 0,
                    end == start + l,
                    (c2 - 1) * l < s.len() - end <= c2 * l,
            ;
        }
    }
}

/// Pagination, remaining count: every page reports exactly the number of
/// top-level comments after its last emitted one.
pub proof fn lemma_page_remaining(s: Seq<CommentV>, limit: nat, cursor: Option<Seq<char>>)
    requires
        0 <= page_start(s, cursor) <= s.len(),
    ensures
        page_view(s, limit, cursor).remaining_count == s.len() - page_end(
            s,
            page_start(s, cursor),
            limit,
        ),
{
}

} // verus!
