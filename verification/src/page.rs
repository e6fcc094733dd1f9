//! Pagination: bounded pages of top-level comments from a thread, driven by
//! an exclusive cursor, with each emitted comment rendered together with its
//! fully materialized (unpaginated) nested reply pages.
use vstd::prelude::*;
use crate::thread::Comment;
use crate::thread::CommentV;
use crate::thread::Thread;
use crate::thread::cv_view;
use crate::thread::sv_view;
use crate::thread::lemma_sv_view_index;

verus! {

/// A rendered comment: first-level fields plus a nested page holding all of
/// its replies.
pub struct CommentOutput {
    pub id: String,
    pub content: String,
    pub created_at: u64,
    pub user_id: String,
    pub replies: Page,
}

/// A read-only projection of a thread: an ordered slice of rendered comments
/// and the count of entries remaining after the last emitted one.
pub struct Page {
    pub comments: Vec<CommentOutput>,
    pub remaining_count: usize,
}

/// Model of a rendered comment.
pub ghost struct CommentOutputV {
    pub id: Seq<char>,
    pub content: Seq<char>,
    pub created_at: u64,
    pub user_id: Seq<char>,
    pub replies: PageV,
}

/// Model of a page.
pub ghost struct PageV {
    pub comments: Seq<CommentOutputV>,
    pub remaining_count: int,
}

/// Model of one rendered comment value.
pub open spec fn cov_view(c: CommentOutput) -> CommentOutputV
    decreases c,
{
    CommentOutputV {
        id: c.id@,
        content: c.content@,
        created_at: c.created_at,
        user_id: c.user_id@,
        replies: PageV {
            comments: pov_seq(c.replies.comments@),
            remaining_count: c.replies.remaining_count as int,
        },
    }
}

/// Model of a sequence of rendered comments.
pub open spec fn pov_seq(s: Seq<CommentOutput>) -> Seq<CommentOutputV>
    decreases s,
{
    if s.len() == 0 {
        Seq::empty()
    } else {
        seq![cov_view(s[0])] + pov_seq(s.subrange(1, s.len() as int))
    }
}

impl View for CommentOutput {
    type V = CommentOutputV;

    open spec fn view(&self) -> CommentOutputV {
        cov_view(*self)
    }
}

impl View for Page {
    type V = PageV;

    open spec fn view(&self) -> PageV {
        PageV {
            comments: pov_seq(self.comments@),
            remaining_count: self.remaining_count as int,
        }
    }
}

/// The model of a rendered-comment sequence is pointwise.
pub proof fn lemma_pov_seq_index(s: Seq<CommentOutput>)
    ensures
        pov_seq(s).len() == s.len(),
        forall|i: int| 0 <= i < s.len() ==> pov_seq(s)[i] == cov_view(s[i]),
    decreases s.len(),
{
    if s.len() > 0 {
        lemma_pov_seq_index(s.subrange(1, s.len() as int));
        assert forall|i: int| 0 <= i < s.len() implies pov_seq(s)[i] == cov_view(s[i]) by {
            if i > 0 {
                assert(s.subrange(1, s.len() as int)[i - 1] == s[i]);
            }
        }
    }
}

/// How one comment is rendered: its own fields, plus a nested page that holds
/// every reply, rendered the same way, with nothing remaining.
pub open spec fn rv_comment(c: CommentV) -> CommentOutputV
    decreases c,
{
    CommentOutputV {
        id: c.id,
        content: c.content,
        created_at: c.created_at,
        user_id: c.user_id,
        replies: PageV { comments: rv_seq(c.replies), remaining_count: 0 },
    }
}

/// Rendering of a comment sequence, elementwise.
pub open spec fn rv_seq(s: Seq<CommentV>) -> Seq<CommentOutputV>
    decreases s,
{
    if s.len() == 0 {
        Seq::empty()
    } else {
        seq![rv_comment(s[0])] + rv_seq(s.subrange(1, s.len() as int))
    }
}

/// Rendering is pointwise.
pub proof fn lemma_rv_seq_index(s: Seq<CommentV>)
    ensures
        rv_seq(s).len() == s.len(),
        forall|i: int| 0 <= i < s.len() ==> rv_seq(s)[i] == rv_comment(s[i]),
    decreases s.len(),
{
    if s.len() > 0 {
        lemma_rv_seq_index(s.subrange(1, s.len() as int));
        assert forall|i: int| 0 <= i < s.len() implies rv_seq(s)[i] == rv_comment(s[i]) by {
            if i > 0 {
                assert(s.subrange(1, s.len() as int)[i - 1] == s[i]);
            }
        }
    }
}

/// The page start position for a cursor: `0` with no cursor; one past the
/// first comment whose id is the cursor; the thread's end when the cursor is
/// present but matches nothing (the hard boundary rule).
pub open spec fn find_after(s: Seq<CommentV>, cursor: Seq<char>) -> int
    decreases s,
{
    if s.len() == 0 {
        0
    } else if s[0].id == cursor {
        1
    } else {
        1 + find_after(s.subrange(1, s.len() as int), cursor)
    }
}

pub open spec fn page_start(s: Seq<CommentV>, cursor: Option<Seq<char>>) -> int {
    match cursor {
        None => 0,
        Some(c) => find_after(s, c),
    }
}

/// One past the last emitted index: at most `limit` entries from `start`.
pub open spec fn page_end(s: Seq<CommentV>, start: int, limit: nat) -> int {
    if start + limit <= s.len() {
        start + limit
    } else {
        s.len() as int
    }
}

/// The page produced from a thread model for a limit and cursor.
pub open spec fn page_view(s: Seq<CommentV>, limit: nat, cursor: Option<Seq<char>>) -> PageV {
    let start = page_start(s, cursor);
    let end = page_end(s, start, limit);
    PageV { comments: rv_seq(s.subrange(start, end)), remaining_count: s.len() - end }
}

/// `find_after` against the first matching index: `k + 1` when the first
/// match is at `k`, the length when nothing matches.
pub proof fn lemma_find_after_first(s: Seq<CommentV>, cursor: Seq<char>, k: int)
    requires
        0 <= k <= s.len(),
        forall|j: int| 0 <= j < k ==> s[j].id != cursor,
        k < s.len() ==> s[k].id == cursor,
    ensures
        find_after(s, cursor) == if k < s.len() {
            k + 1
        } else {
            s.len() as int
        },
    decreases s.len(),
{
    if s.len() > 0 {
        if k == 0 {
        } else {
            let rest = s.subrange(1, s.len() as int);
            assert forall|j: int| 0 <= j < k - 1 implies rest[j].id != cursor by {
                assert(rest[j] == s[j + 1]);
            }
            assert(k - 1 < rest.len() ==> rest[k - 1].id == cursor);
            lemma_find_after_first(rest, cursor, k - 1);
        }
    }
}

/// `find_after` stays within the thread.
pub proof fn lemma_find_after_bounds(s: Seq<CommentV>, cursor: Seq<char>)
    ensures
        0 <= find_after(s, cursor) <= s.len(),
    decreases s.len(),
{
    if s.len() > 0 && s[0].id != cursor {
        lemma_find_after_bounds(s.subrange(1, s.len() as int), cursor);
    }
}

impl Comment {
    /// Render this comment with all of its replies, fully materialized.
    pub fn render(&self) -> (r: CommentOutput)
        ensures
            r@ == rv_comment(self@),
        decreases *self,
    {
        proof {
            assert(decreases_to!(*self => self.replies));
        }
        CommentOutput {
            id: self.id.clone(),
            content: self.content.clone(),
            created_at: self.created_at,
            user_id: self.user_id.clone(),
            replies: Page { comments: self.replies.render_all(), remaining_count: 0 },
        }
    }
}

impl Thread {
    /// Render every comment of this thread.
    #[verifier::loop_isolation(false)]
    pub fn render_all(&self) -> (r: Vec<CommentOutput>)
        ensures
            pov_seq(r@) == rv_seq(self@),
        decreases *self,
    {
        let ghost v = self.entries@;
        let mut out: Vec<CommentOutput> = Vec::new();
        let n = self.entries.len();
        let mut i: usize = 0;
        proof {
            lemma_sv_view_index(v);
            assert(out@ =~= Seq::<CommentOutput>::empty());
        }
        while i < n
            invariant
                i <= n,
                pov_seq(out@) == rv_seq(self@.subrange(0, i as int)),
            decreases n - i,
        {
            proof {
                assert(decreases_to!(*self => self.entries));
                assert(decreases_to!(self.entries => self.entries@));
                assert(decreases_to!(self.entries@ => self.entries@[i as int]));
            }
            let ghost before = out@;
            out.push(self.entries[i].render());
            proof {
                lemma_pov_seq_index(before);
                lemma_pov_seq_index(out@);
                assert(out@.subrange(0, before.len() as int) =~= before);
                lemma_rv_seq_index(self@.subrange(0, i as int));
                lemma_rv_seq_index(self@.subrange(0, i as int + 1));
                assert forall|j: int| 0 <= j < i + 1 implies pov_seq(out@)[j] == rv_seq(
                    self@.subrange(0, i as int + 1),
                )[j] by {
                    assert(pov_seq(out@)[j] == cov_view(out@[j]));
                    assert(rv_seq(self@.subrange(0, i as int + 1))[j] == rv_comment(
                        self@.subrange(0, i as int + 1)[j],
                    ));
                    if j < i {
                        assert(out@[j] == before[j]);
                        assert(pov_seq(before)[j] == cov_view(before[j]));
                        assert(pov_seq(before)[j] == rv_seq(self@.subrange(0, i as int))[j]);
                        assert(rv_seq(self@.subrange(0, i as int))[j] == rv_comment(
                            self@.subrange(0, i as int)[j],
                        ));
                        assert(self@.subrange(0, i as int)[j] == self@.subrange(
                            0,
                            i as int + 1,
                        )[j]);
                    } else {
                        assert(out@[j]@ == rv_comment(cv_view(v[i as int])));
                        assert(self@[i as int] == sv_view(v)[i as int]);
                        assert(sv_view(v)[i as int] == cv_view(v[i as int]));
                        assert(self@.subrange(0, i as int + 1)[j] == self@[i as int]);
                    }
                }
                assert(pov_seq(out@) =~= rv_seq(self@.subrange(0, i as int + 1)));
            }
            i = i + 1;
        }
        proof {
            assert(self@.subrange(0, n as int) =~= self@);
        }
        out
    }

    /// The page of top-level comments for a limit and optional cursor
    /// (exclusive start marker), per the pagination rules.
    #[verifier::loop_isolation(false)]
    pub fn get_page(&self, limit: usize, cursor: Option<&String>) -> (p: Page)
        ensures
            p@ == page_view(
                self@,
                limit as nat,
                match cursor {
                    Some(c) => Some(c@),
                    None => None,
                },
            ),
    {
        let ghost v = self@;
        let ghost curv: Option<Seq<char>> = match cursor {
            Some(c) => Some(c@),
            None => None,
        };
        proof {
            lemma_sv_view_index(self.entries@);
        }
        let n = self.entries.len();
        let mut start: usize = 0;
        match cursor {
            None => {},
            Some(cur) => {
                let mut i: usize = 0;
                let mut found = false;
                while i < n && !found
                    invariant
                        i <= n,
                        !found ==> forall|j: int| 0 <= j < i ==> v[j].id != cur@,
                        found ==> 0 < i <= n && v[i - 1].id == cur@ && forall|j: int|
                            0 <= j < i - 1 ==> v[j].id != cur@,
                    decreases n - i,
                {
                    if self.entries[i].id.eq(cur) {
                        found = true;
                    }
                    i = i + 1;
                }
                proof {
                    if found {
                        lemma_find_after_first(v, cur@, i - 1);
                    } else {
                        lemma_find_after_first(v, cur@, n as int);
                    }
                }
                start = if found {
                    i
                } else {
                    n
                };
            },
        }
        proof {
            assert(start as int == page_start(v, curv));
        }
        let mut out: Vec<CommentOutput> = Vec::new();
        let mut k: usize = start;
        let mut emitted: usize = 0;
        proof {
            assert(out@ =~= Seq::<CommentOutput>::empty());
        }
        while k < n && emitted < limit
            invariant
                start <= k <= n,
                emitted == k - start,
                emitted <= limit,
                pov_seq(out@) == rv_seq(v.subrange(start as int, k as int)),
            decreases n - k,
        {
            let ghost before = out@;
            out.push(self.entries[k].render());
            proof {
                lemma_pov_seq_index(before);
                lemma_pov_seq_index(out@);
                assert(out@.subrange(0, before.len() as int) =~= before);
                lemma_rv_seq_index(v.subrange(start as int, k as int));
                lemma_rv_seq_index(v.subrange(start as int, k as int + 1));
                assert forall|j: int| 0 <= j < out@.len() implies pov_seq(out@)[j] == rv_seq(
                    v.subrange(start as int, k as int + 1),
                )[j] by {
                    assert(pov_seq(out@)[j] == cov_view(out@[j]));
                    assert(rv_seq(v.subrange(start as int, k as int + 1))[j] == rv_comment(
                        v.subrange(start as int, k as int + 1)[j],
                    ));
                    if j < out@.len() - 1 {
                        assert(out@[j] == before[j]);
                        assert(pov_seq(before)[j] == cov_view(before[j]));
                        assert(pov_seq(before)[j] == rv_seq(
                            v.subrange(start as int, k as int),
                        )[j]);
                        assert(rv_seq(v.subrange(start as int, k as int))[j] == rv_comment(
                            v.subrange(start as int, k as int)[j],
                        ));
                        assert(v.subrange(start as int, k as int)[j] == v.subrange(
                            start as int,
                            k as int + 1,
                        )[j]);
                    } else {
                        assert(out@[j]@ == rv_comment(cv_view(self.entries@[k as int])));
                        assert(v[k as int] == sv_view(self.entries@)[k as int]);
                        assert(sv_view(self.entries@)[k as int] == cv_view(self.entries@[k as int]));
                        assert(v.subrange(start as int, k as int + 1)[j] == v[k as int]);
                    }
                }
                assert(pov_seq(out@) =~= rv_seq(v.subrange(start as int, k as int + 1)));
            }
            k = k + 1;
            emitted = emitted + 1;
        }
        proof {
            assert(k as int == page_end(v, start as int, limit as nat));
        }
        Page { comments: out, remaining_count: n - k }
    }
}

} // verus!
