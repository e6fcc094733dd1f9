//! Comment trees: an insertion-ordered thread of comments, each comment
//! carrying a nested reply thread and a set of (label, user) metadata tags.
use vstd::prelude::*;

verus! {

/// One (label, user) metadata tag on a comment.
pub struct MetadataInput {
    pub label: String,
    pub user_id: String,
}

/// A stored comment: identity, content, author, creation time, the id of the
/// parent comment (if any), metadata tags, and the nested reply thread.
pub struct Comment {
    pub id: String,
    pub content: String,
    pub user_id: String,
    pub created_at: u64,
    pub parent_id: Option<String>,
    pub metadata: Vec<MetadataInput>,
    pub replies: Thread,
}

/// An insertion-ordered sequence of comments at one nesting level.
pub struct Thread {
    pub entries: Vec<Comment>,
}

/// Mathematical model of a comment: plain sequences for the strings, a set
/// for the metadata tags, and a sequence of models for the replies.
pub ghost struct CommentV {
    pub id: Seq<char>,
    pub content: Seq<char>,
    pub user_id: Seq<char>,
    pub created_at: u64,
    pub parent_id: Option<Seq<char>>,
    pub metadata: Set<(Seq<char>, Seq<char>)>,
    pub replies: Seq<CommentV>,
}

/// The tag set denoted by a vector of metadata entries.
pub open spec fn md_set(m: Seq<MetadataInput>) -> Set<(Seq<char>, Seq<char>)> {
    Set::new(|p: (Seq<char>, Seq<char>)| exists|i: int|
        0 <= i < m.len() && #[trigger] md_pair(m[i]) == p)
}

/// Model of one comment.
pub open spec fn cv_view(c: Comment) -> CommentV
    decreases c,
{
    CommentV {
        id: c.id@,
        content: c.content@,
        user_id: c.user_id@,
        created_at: c.created_at,
        parent_id: match c.parent_id {
            Some(p) => Some(p@),
            None => None,
        },
        metadata: md_set(c.metadata@),
        replies: sv_view(c.replies.entries@),
    }
}

/// Model of a sequence of comments.
pub open spec fn sv_view(s: Seq<Comment>) -> Seq<CommentV>
    decreases s,
{
    if s.len() == 0 {
        Seq::empty()
    } else {
        seq![cv_view(s[0])] + sv_view(s.subrange(1, s.len() as int))
    }
}

impl View for Comment {
    type V = CommentV;

    open spec fn view(&self) -> CommentV {
        cv_view(*self)
    }
}

impl View for Thread {
    type V = Seq<CommentV>;

    open spec fn view(&self) -> Seq<CommentV> {
        sv_view(self.entries@)
    }
}

/// The model of a comment sequence is pointwise: same length, each element
/// the model of the corresponding comment.
pub proof fn lemma_sv_view_index(s: Seq<Comment>)
    ensures
        sv_view(s).len() == s.len(),
        forall|i: int| 0 <= i < s.len() ==> sv_view(s)[i] == cv_view(s[i]),
    decreases s.len(),
{
    if s.len() > 0 {
        lemma_sv_view_index(s.subrange(1, s.len() as int));
        assert forall|i: int| 0 <= i < s.len() implies sv_view(s)[i] == cv_view(s[i]) by {
            if i > 0 {
                assert(s.subrange(1, s.len() as int)[i - 1] == s[i]);
            }
        }
    }
}

/// Input to an upsert: the fields of a comment to create or update.
pub struct CommentInput {
    pub id: String,
    pub content: String,
    pub parent_id: Option<String>,
    pub user_id: String,
    pub created_at: u64,
}

/// Model of an upsert input.
pub ghost struct CommentInputV {
    pub id: Seq<char>,
    pub content: Seq<char>,
    pub parent_id: Option<Seq<char>>,
    pub user_id: Seq<char>,
    pub created_at: u64,
}

impl View for CommentInput {
    type V = CommentInputV;

    open spec fn view(&self) -> CommentInputV {
        CommentInputV {
            id: self.id@,
            content: self.content@,
            parent_id: match self.parent_id {
                Some(p) => Some(p@),
                None => None,
            },
            user_id: self.user_id@,
            created_at: self.created_at,
        }
    }
}

/// The comment a fresh insert creates: empty metadata, empty replies.
pub open spec fn new_cv(inp: CommentInputV) -> CommentV {
    CommentV {
        id: inp.id,
        content: inp.content,
        user_id: inp.user_id,
        created_at: inp.created_at,
        parent_id: inp.parent_id,
        metadata: Set::empty(),
        replies: Seq::empty(),
    }
}

/// First match for `id` in one comment's subtree: the comment itself, else a
/// search of its replies.
pub open spec fn cv_lookup(c: CommentV, id: Seq<char>) -> Option<CommentV>
    decreases c,
{
    if c.id == id {
        Some(c)
    } else {
        tv_lookup(c.replies, id)
    }
}

/// First match for `id` across a thread, searching each comment's subtree in
/// insertion order.
pub open spec fn tv_lookup(s: Seq<CommentV>, id: Seq<char>) -> Option<CommentV>
    decreases s,
{
    if s.len() == 0 {
        None
    } else {
        match cv_lookup(s[0], id) {
            Some(c) => Some(c),
            None => tv_lookup(s.subrange(1, s.len() as int), id),
        }
    }
}

pub open spec fn tv_contains(s: Seq<CommentV>, id: Seq<char>) -> bool {
    tv_lookup(s, id) is Some
}

/// Replace the content of every comment with `id` (ids are unique by caller
/// discipline, so at most one comment is affected).
pub open spec fn cv_update(c: CommentV, id: Seq<char>, content: Seq<char>) -> CommentV
    decreases c,
{
    CommentV {
        content: if c.id == id { content } else { c.content },
        replies: tv_update(c.replies, id, content),
        ..c
    }
}

pub open spec fn tv_update(s: Seq<CommentV>, id: Seq<char>, content: Seq<char>) -> Seq<CommentV>
    decreases s,
{
    if s.len() == 0 {
        s
    } else {
        seq![cv_update(s[0], id, content)] + tv_update(s.subrange(1, s.len() as int), id, content)
    }
}

/// Append `n` to the reply thread of the first comment matching `parent`;
/// `None` when no comment has that id.
pub open spec fn cv_append(c: CommentV, parent: Seq<char>, n: CommentV) -> Option<CommentV>
    decreases c,
{
    if c.id == parent {
        Some(CommentV { replies: c.replies.push(n), ..c })
    } else {
        match tv_append(c.replies, parent, n) {
            Some(r) => Some(CommentV { replies: r, ..c }),
            None => None,
        }
    }
}

pub open spec fn tv_append(s: Seq<CommentV>, parent: Seq<char>, n: CommentV) -> Option<
    Seq<CommentV>,
>
    decreases s,
{
    if s.len() == 0 {
        None
    } else {
        match cv_append(s[0], parent, n) {
            Some(c) => Some(seq![c] + s.subrange(1, s.len() as int)),
            None => match tv_append(s.subrange(1, s.len() as int), parent, n) {
                Some(r) => Some(seq![s[0]] + r),
                None => None,
            },
        }
    }
}

/// What an upsert leaves behind: a content update when the id is already
/// present anywhere in the tree, else an insert at the root (no parent) or
/// under the parent; `None` means the parent was not found.
pub open spec fn tv_upsert(s: Seq<CommentV>, inp: CommentInputV) -> Option<Seq<CommentV>> {
    if tv_contains(s, inp.id) {
        Some(tv_update(s, inp.id, inp.content))
    } else {
        match inp.parent_id {
            None => Some(s.push(new_cv(inp))),
            Some(p) => tv_append(s, p, new_cv(inp)),
        }
    }
}

/// Remove every comment with `id`, together with its whole reply subtree.
pub open spec fn cv_delete(c: CommentV, id: Seq<char>) -> CommentV
    decreases c,
{
    CommentV { replies: tv_delete(c.replies, id), ..c }
}

pub open spec fn tv_delete(s: Seq<CommentV>, id: Seq<char>) -> Seq<CommentV>
    decreases s,
{
    if s.len() == 0 {
        s
    } else if s[0].id == id {
        tv_delete(s.subrange(1, s.len() as int), id)
    } else {
        seq![cv_delete(s[0], id)] + tv_delete(s.subrange(1, s.len() as int), id)
    }
}

/// A tag set after toggling one (label, user) pair: present pairs leave,
/// absent pairs enter.
pub open spec fn set_toggle(s: Set<(Seq<char>, Seq<char>)>, p: (Seq<char>, Seq<char>)) -> Set<
    (Seq<char>, Seq<char>),
> {
    if s.contains(p) {
        s.remove(p)
    } else {
        s.insert(p)
    }
}

/// Toggle the pair on every comment with `id`.
pub open spec fn cv_toggle(c: CommentV, id: Seq<char>, p: (Seq<char>, Seq<char>)) -> CommentV
    decreases c,
{
    CommentV {
        metadata: if c.id == id { set_toggle(c.metadata, p) } else { c.metadata },
        replies: tv_toggle(c.replies, id, p),
        ..c
    }
}

pub open spec fn tv_toggle(s: Seq<CommentV>, id: Seq<char>, p: (Seq<char>, Seq<char>)) -> Seq<
    CommentV,
>
    decreases s,
{
    if s.len() == 0 {
        s
    } else {
        seq![cv_toggle(s[0], id, p)] + tv_toggle(s.subrange(1, s.len() as int), id, p)
    }
}

/// Number of comments in one comment's subtree, the comment itself included.
pub open spec fn cv_count(c: CommentV) -> nat
    decreases c,
{
    1 + tv_count(c.replies)
}

/// Total number of comments in a thread, all nesting levels included.
pub open spec fn tv_count(s: Seq<CommentV>) -> nat
    decreases s,
{
    if s.len() == 0 {
        0nat
    } else {
        cv_count(s[0]) + tv_count(s.subrange(1, s.len() as int))
    }
}

/// All ids in one comment's subtree, in depth-first order.
pub open spec fn cv_ids(c: CommentV) -> Seq<Seq<char>>
    decreases c,
{
    seq![c.id] + tv_ids(c.replies)
}

/// All ids in a thread, in depth-first order.
pub open spec fn tv_ids(s: Seq<CommentV>) -> Seq<Seq<char>>
    decreases s,
{
    if s.len() == 0 {
        Seq::empty()
    } else {
        cv_ids(s[0]) + tv_ids(s.subrange(1, s.len() as int))
    }
}

/// Concatenation distributes over the model of a comment sequence.
pub proof fn lemma_sv_view_concat(a: Seq<Comment>, b: Seq<Comment>)
    ensures
        sv_view(a + b) == sv_view(a) + sv_view(b),
{
    lemma_sv_view_index(a);
    lemma_sv_view_index(b);
    lemma_sv_view_index(a + b);
    assert forall|i: int| 0 <= i < (a + b).len() implies sv_view(a + b)[i] == (sv_view(a) + sv_view(
        b,
    ))[i] by {
        if i < a.len() {
            assert((a + b)[i] == a[i]);
        } else {
            assert((a + b)[i] == b[i - a.len()]);
        }
    }
    assert(sv_view(a + b) =~= sv_view(a) + sv_view(b));
}

/// The (label, user) pair one metadata entry denotes.
pub open spec fn md_pair(x: MetadataInput) -> (Seq<char>, Seq<char>) {
    (x.label@, x.user_id@)
}

pub fn clone_opt_string(s: &Option<String>) -> (r: Option<String>)
    ensures
        match r {
            Some(x) => s matches Some(y) && x@ == y@,
            None => s is None,
        },
{
    match s {
        Some(x) => Some(x.clone()),
        None => None,
    }
}

pub fn md_clone(m: &Vec<MetadataInput>) -> (r: Vec<MetadataInput>)
    ensures
        r@.len() == m@.len(),
        forall|i: int| 0 <= i < m@.len() ==> md_pair(r@[i]) == md_pair(m@[i]),
{
    let mut out: Vec<MetadataInput> = Vec::new();
    let n = m.len();
    let mut i: usize = 0;
    while i < n
        invariant
            n == m@.len(),
            i <= n,
            out@.len() == i,
            forall|j: int| 0 <= j < i ==> md_pair(out@[j]) == md_pair(m@[j]),
        decreases n - i,
    {
        out.push(MetadataInput { label: m[i].label.clone(), user_id: m[i].user_id.clone() });
        i = i + 1;
    }
    out
}

/// Two metadata vectors with pointwise equal pairs denote the same tag set.
proof fn lemma_md_set_pointwise(a: Seq<MetadataInput>, b: Seq<MetadataInput>)
    requires
        a.len() == b.len(),
        forall|i: int| 0 <= i < a.len() ==> md_pair(a[i]) == md_pair(b[i]),
    ensures
        md_set(a) == md_set(b),
{
    assert forall|p: (Seq<char>, Seq<char>)| md_set(a).contains(p) implies md_set(b).contains(
        p,
    ) by {
        let i = choose|i: int| 0 <= i < a.len() && #[trigger] md_pair(a[i]) == p;
        assert(md_pair(b[i]) == p);
    }
    assert forall|p: (Seq<char>, Seq<char>)| md_set(b).contains(p) implies md_set(a).contains(
        p,
    ) by {
        let i = choose|i: int| 0 <= i < b.len() && #[trigger] md_pair(b[i]) == p;
        assert(md_pair(a[i]) == p);
    }
    assert(md_set(a) =~= md_set(b));
}

/// Appending one entry adds exactly its pair to the tag set.
proof fn lemma_md_set_push(s: Seq<MetadataInput>, x: MetadataInput)
    ensures
        md_set(s.push(x)) == md_set(s).insert(md_pair(x)),
{
    assert forall|q: (Seq<char>, Seq<char>)| md_set(s.push(x)).contains(q) implies md_set(
        s,
    ).insert(md_pair(x)).contains(q) by {
        let i = choose|i: int| 0 <= i < s.push(x).len() && #[trigger] md_pair(s.push(x)[i]) == q;
        if i < s.len() {
            assert(s.push(x)[i] == s[i]);
            assert(md_pair(s[i]) == q);
        } else {
            assert(s.push(x)[i] == x);
        }
    }
    assert forall|q: (Seq<char>, Seq<char>)| md_set(s).insert(md_pair(x)).contains(q) implies md_set(
        s.push(x),
    ).contains(q) by {
        if q == md_pair(x) {
            assert(md_pair(s.push(x)[s.len() as int]) == q);
        } else {
            let i = choose|i: int| 0 <= i < s.len() && #[trigger] md_pair(s[i]) == q;
            assert(md_pair(s.push(x)[i]) == q);
        }
    }
    assert(md_set(s.push(x)) =~= md_set(s).insert(md_pair(x)));
}

/// Whether the tag set of `m` holds the pair (label, user).
pub fn md_contains(m: &Vec<MetadataInput>, label: &String, user: &String) -> (r: bool)
    ensures
        r == md_set(m@).contains((label@, user@)),
{
    let n = m.len();
    let mut i: usize = 0;
    while i < n
        invariant
            n == m@.len(),
            i <= n,
            forall|j: int| 0 <= j < i ==> #[trigger] md_pair(m@[j]) != (label@, user@),
        decreases n - i,
    {
        if m[i].label.eq(label) && m[i].user_id.eq(user) {
            assert(md_pair(m@[i as int]) == (label@, user@));
            return true;
        }
        i = i + 1;
    }
    proof {
        if md_set(m@).contains((label@, user@)) {
            let j = choose|j: int|
                0 <= j < m@.len() && #[trigger] md_pair(m@[j]) == (label@, user@);
        }
    }
    false
}

/// Toggle the pair (label, user) in the tag set held by `m`: remove it when
/// present, insert it when absent.
#[verifier::loop_isolation(false)]
pub fn md_toggle(m: &Vec<MetadataInput>, label: &String, user: &String) -> (r: Vec<MetadataInput>)
    ensures
        md_set(r@) == set_toggle(md_set(m@), (label@, user@)),
{
    let ghost p = (label@, user@);
    if md_contains(m, label, user) {
        let mut out: Vec<MetadataInput> = Vec::new();
        let n = m.len();
        let mut i: usize = 0;
        while i < n
            invariant
                n == m@.len(),
                i <= n,
                md_set(out@) == md_set(m@.subrange(0, i as int)).remove(p),
            decreases n - i,
        {
            let ghost pre = m@.subrange(0, i as int);
            let hit = m[i].label.eq(label) && m[i].user_id.eq(user);
            if !hit {
                let ghost old_out = out@;
                out.push(MetadataInput { label: m[i].label.clone(), user_id: m[i].user_id.clone() });
                proof {
                    assert(out@ == old_out.push(out@[out@.len() - 1]));
                    assert(md_pair(out@[out@.len() - 1]) == md_pair(m@[i as int]));
                    lemma_md_set_push(old_out, out@[out@.len() - 1]);
                }
            }
            proof {
                assert(m@.subrange(0, i as int + 1) =~= pre.push(m@[i as int]));
                lemma_md_set_push(pre, m@[i as int]);
                if hit {
                    assert(md_pair(m@[i as int]) == p);
                    assert(md_set(out@) =~= md_set(m@.subrange(0, i as int + 1)).remove(p));
                } else {
                    assert(md_pair(m@[i as int]) != p);
                    assert(md_set(out@) =~= md_set(m@.subrange(0, i as int + 1)).remove(p));
                }
            }
            i = i + 1;
        }
        proof {
            assert(m@.subrange(0, n as int) =~= m@);
        }
        out
    } else {
        let mut out = md_clone(m);
        let ghost before = out@;
        out.push(MetadataInput { label: label.clone(), user_id: user.clone() });
        proof {
            lemma_md_set_pointwise(before, m@);
            assert(out@ == before.push(out@[out@.len() - 1]));
            assert(md_pair(out@[out@.len() - 1]) == p);
            lemma_md_set_push(before, out@[out@.len() - 1]);
        }
        out
    }
}


/// Appending one comment appends its model.
pub proof fn lemma_sv_view_push(s: Seq<Comment>, c: Comment)
    ensures
        sv_view(s.push(c)) == sv_view(s).push(cv_view(c)),
{
    lemma_sv_view_index(s);
    lemma_sv_view_index(s.push(c));
    assert forall|i: int| 0 <= i < s.push(c).len() implies sv_view(s.push(c))[i] == sv_view(
        s,
    ).push(cv_view(c))[i] by {
        if i < s.len() {
            assert(s.push(c)[i] == s[i]);
        } else {
            assert(s.push(c)[i] == c);
        }
    }
    assert(sv_view(s.push(c)) =~= sv_view(s).push(cv_view(c)));
}

impl Comment {
    /// The comment a fresh insert creates from an input.
    pub fn from_input(input: &CommentInput) -> (c: Comment)
        ensures
            c@ == new_cv(input@),
    {
        let c = Comment {
            id: input.id.clone(),
            content: input.content.clone(),
            user_id: input.user_id.clone(),
            created_at: input.created_at,
            parent_id: clone_opt_string(&input.parent_id),
            metadata: Vec::new(),
            replies: Thread::new(),
        };
        proof {
            assert(md_set(c.metadata@) =~= Set::<(Seq<char>, Seq<char>)>::empty());
        }
        c
    }

    /// A structural copy with an equal model.
    pub fn deep_clone(&self) -> (c: Comment)
        ensures
            c@ == self@,
        decreases *self,
    {
        proof {
            assert(decreases_to!(*self => self.replies));
        }
        let c = Comment {
            id: self.id.clone(),
            content: self.content.clone(),
            user_id: self.user_id.clone(),
            created_at: self.created_at,
            parent_id: clone_opt_string(&self.parent_id),
            metadata: md_clone(&self.metadata),
            replies: self.replies.deep_clone(),
        };
        proof {
            lemma_md_set_pointwise(c.metadata@, self.metadata@);
        }
        c
    }
}

impl Thread {
    /// An empty thread.
    pub fn new() -> (t: Thread)
        ensures
            t@ == Seq::<CommentV>::empty(),
    {
        Thread { entries: Vec::new() }
    }

    /// A structural copy with an equal model.
    #[verifier::loop_isolation(false)]
    pub fn deep_clone(&self) -> (t: Thread)
        ensures
            t@ == self@,
        decreases *self,
    {
        let ghost v = self.entries@;
        let mut out: Vec<Comment> = Vec::new();
        let n = self.entries.len();
        let mut i: usize = 0;
        proof {
            assert(out@ =~= Seq::<Comment>::empty());
            assert(v.subrange(0, 0int) =~= Seq::<Comment>::empty());
        }
        while i < n
            invariant
                i <= n,
                sv_view(out@) == sv_view(v.subrange(0, i as int)),
            decreases n - i,
        {
            proof {
                assert(decreases_to!(*self => self.entries));
                assert(decreases_to!(self.entries => self.entries@));
                assert(decreases_to!(self.entries@ => self.entries@[i as int]));
            }
            let ghost before = out@;
            out.push(self.entries[i].deep_clone());
            proof {
                lemma_sv_view_push(before, out@[out@.len() - 1]);
                lemma_sv_view_push(v.subrange(0, i as int), v[i as int]);
                assert(v.subrange(0, i as int).push(v[i as int]) =~= v.subrange(0, i as int + 1));
            }
            i = i + 1;
        }
        proof {
            assert(v.subrange(0, n as int) =~= v);
        }
        Thread { entries: out }
    }

    /// Recursive search for the first comment with `id`, across all nesting
    /// levels in insertion order.
    #[verifier::loop_isolation(false)]
    pub fn lookup<'a>(&'a self, id: &String) -> (r: Option<&'a Comment>)
        ensures
            match r {
                Some(c) => tv_lookup(self@, id@) == Some(c@),
                None => tv_lookup(self@, id@) is None,
            },
        decreases *self,
    {
        let ghost v = self.entries@;
        let n = self.entries.len();
        let mut i: usize = 0;
        proof {
            assert(v.subrange(0, n as int) =~= v);
        }
        while i < n
            invariant
                i <= n,
                tv_lookup(self@, id@) == tv_lookup(
                    sv_view(v.subrange(i as int, n as int)),
                    id@,
                ),
            decreases n - i,
        {
            proof {
                lemma_sv_view_index(v.subrange(i as int, n as int));
                assert(v.subrange(i as int, n as int)[0] == v[i as int]);
                assert(v.subrange(i as int, n as int).subrange(
                    1,
                    (n - i) as int,
                ) =~= v.subrange(i as int + 1, n as int));
                assert(sv_view(v.subrange(i as int, n as int))[0] == cv_view(v[i as int]));
                assert(sv_view(v.subrange(i as int, n as int)).subrange(
                    1,
                    (n - i) as int,
                ) =~= sv_view(v.subrange(i as int + 1, n as int))) by {
                    lemma_sv_view_index(v.subrange(i as int + 1, n as int));
                }
            }
            let e = &self.entries[i];
            if e.id.eq(id) {
                proof {
                    assert(cv_view(v[i as int]).id == id@);
                    assert(cv_lookup(cv_view(v[i as int]), id@) == Some(cv_view(v[i as int])));
                    assert(tv_lookup(sv_view(v.subrange(i as int, n as int)), id@) == Some(
                        cv_view(v[i as int]),
                    ));
                }
                return Some(e);
            }
            proof {
                assert(decreases_to!(*self => self.entries));
                assert(decreases_to!(self.entries => self.entries@));
                assert(decreases_to!(self.entries@ => self.entries@[i as int]));
                assert(decreases_to!(self.entries@[i as int] => self.entries@[i as int].replies));
            }
            let sub = e.replies.lookup(id);
            match sub {
                Some(c) => {
                    proof {
                        assert(cv_lookup(cv_view(v[i as int]), id@) == Some(c@));
                        assert(tv_lookup(sv_view(v.subrange(i as int, n as int)), id@) == Some(c@));
                    }
                    return Some(c);
                },
                None => {},
            }
            i = i + 1;
        }
        proof {
            assert(v.subrange(n as int, n as int) =~= Seq::<Comment>::empty());
        }
        None
    }

    /// Whether any comment in the tree has `id`.
    pub fn contains(&self, id: &String) -> (r: bool)
        ensures
            r == tv_contains(self@, id@),
    {
        match self.lookup(id) {
            Some(_) => true,
            None => false,
        }
    }

    /// Replace the content of the comment with `id`, wherever it nests.
    #[verifier::loop_isolation(false)]
    pub fn update_content(&self, id: &String, content: &String) -> (r: Thread)
        ensures
            r@ == tv_update(self@, id@, content@),
        decreases *self,
    {
        let ghost v = self.entries@;
        let mut out: Vec<Comment> = Vec::new();
        let n = self.entries.len();
        let mut i: usize = 0;
        proof {
            assert(v.subrange(0, n as int) =~= v);
            assert(out@ =~= Seq::<Comment>::empty());
            assert(sv_view(out@) + tv_update(self@, id@, content@) =~= tv_update(
                self@,
                id@,
                content@,
            ));
        }
        while i < n
            invariant
                i <= n,
                tv_update(self@, id@, content@) == sv_view(out@) + tv_update(
                    sv_view(v.subrange(i as int, n as int)),
                    id@,
                    content@,
                ),
            decreases n - i,
        {
            proof {
                lemma_sv_view_index(v.subrange(i as int, n as int));
                assert(v.subrange(i as int, n as int)[0] == v[i as int]);
                assert(v.subrange(i as int, n as int).subrange(
                    1,
                    (n - i) as int,
                ) =~= v.subrange(i as int + 1, n as int));
                assert(sv_view(v.subrange(i as int, n as int))[0] == cv_view(v[i as int]));
                assert(sv_view(v.subrange(i as int, n as int)).subrange(
                    1,
                    (n - i) as int,
                ) =~= sv_view(v.subrange(i as int + 1, n as int))) by {
                    lemma_sv_view_index(v.subrange(i as int + 1, n as int));
                }
                assert(decreases_to!(*self => self.entries));
                assert(decreases_to!(self.entries => self.entries@));
                assert(decreases_to!(self.entries@ => self.entries@[i as int]));
                assert(decreases_to!(self.entries@[i as int] => self.entries@[i as int].replies));
            }
            let e = &self.entries[i];
            let hit = e.id.eq(id);
            let c2 = Comment {
                id: e.id.clone(),
                content: if hit {
                    content.clone()
                } else {
                    e.content.clone()
                },
                user_id: e.user_id.clone(),
                created_at: e.created_at,
                parent_id: clone_opt_string(&e.parent_id),
                metadata: md_clone(&e.metadata),
                replies: e.replies.update_content(id, content),
            };
            let ghost before = out@;
            out.push(c2);
            proof {
                lemma_md_set_pointwise(out@[out@.len() - 1].metadata@, e.metadata@);
                assert(out@[out@.len() - 1]@ == cv_update(cv_view(v[i as int]), id@, content@));
                lemma_sv_view_push(before, out@[out@.len() - 1]);
                assert(sv_view(out@) + tv_update(
                    sv_view(v.subrange(i as int + 1, n as int)),
                    id@,
                    content@,
                ) =~= sv_view(before) + tv_update(
                    sv_view(v.subrange(i as int, n as int)),
                    id@,
                    content@,
                ));
            }
            i = i + 1;
        }
        proof {
            assert(v.subrange(n as int, n as int) =~= Seq::<Comment>::empty());
            assert(sv_view(out@) + tv_update(
                sv_view(v.subrange(n as int, n as int)),
                id@,
                content@,
            ) =~= sv_view(out@));
        }
        Thread { entries: out }
    }

    /// Remove the comment with `id` and its whole reply subtree, wherever it
    /// nests; a thread without that id comes back with an equal model.
    #[verifier::loop_isolation(false)]
    pub fn delete(&self, id: &String) -> (r: Thread)
        ensures
            r@ == tv_delete(self@, id@),
        decreases *self,
    {
        let ghost v = self.entries@;
        let mut out: Vec<Comment> = Vec::new();
        let n = self.entries.len();
        let mut i: usize = 0;
        proof {
            assert(v.subrange(0, n as int) =~= v);
            assert(out@ =~= Seq::<Comment>::empty());
            assert(sv_view(out@) + tv_delete(self@, id@) =~= tv_delete(self@, id@));
        }
        while i < n
            invariant
                i <= n,
                tv_delete(self@, id@) == sv_view(out@) + tv_delete(
                    sv_view(v.subrange(i as int, n as int)),
                    id@,
                ),
            decreases n - i,
        {
            proof {
                lemma_sv_view_index(v.subrange(i as int, n as int));
                assert(v.subrange(i as int, n as int)[0] == v[i as int]);
                assert(v.subrange(i as int, n as int).subrange(
                    1,
                    (n - i) as int,
                ) =~= v.subrange(i as int + 1, n as int));
                assert(sv_view(v.subrange(i as int, n as int))[0] == cv_view(v[i as int]));
                assert(sv_view(v.subrange(i as int, n as int)).subrange(
                    1,
                    (n - i) as int,
                ) =~= sv_view(v.subrange(i as int + 1, n as int))) by {
                    lemma_sv_view_index(v.subrange(i as int + 1, n as int));
                }
                assert(decreases_to!(*self => self.entries));
                assert(decreases_to!(self.entries => self.entries@));
                assert(decreases_to!(self.entries@ => self.entries@[i as int]));
                assert(decreases_to!(self.entries@[i as int] => self.entries@[i as int].replies));
            }
            let e = &self.entries[i];
            if !e.id.eq(id) {
                let c2 = Comment {
                    id: e.id.clone(),
                    content: e.content.clone(),
                    user_id: e.user_id.clone(),
                    created_at: e.created_at,
                    parent_id: clone_opt_string(&e.parent_id),
                    metadata: md_clone(&e.metadata),
                    replies: e.replies.delete(id),
                };
                let ghost before = out@;
                out.push(c2);
                proof {
                    lemma_md_set_pointwise(out@[out@.len() - 1].metadata@, e.metadata@);
                    assert(out@[out@.len() - 1]@ == cv_delete(cv_view(v[i as int]), id@));
                    lemma_sv_view_push(before, out@[out@.len() - 1]);
                    assert(sv_view(out@) + tv_delete(
                        sv_view(v.subrange(i as int + 1, n as int)),
                        id@,
                    ) =~= sv_view(before) + tv_delete(sv_view(v.subrange(i as int, n as int)), id@));
                }
            }
            i = i + 1;
        }
        proof {
            assert(v.subrange(n as int, n as int) =~= Seq::<Comment>::empty());
            assert(sv_view(out@) + tv_delete(
                sv_view(v.subrange(n as int, n as int)),
                id@,
            ) =~= sv_view(out@));
        }
        Thread { entries: out }
    }

    /// Toggle the (label, user) pair on the comment with `id`, wherever it
    /// nests.
    #[verifier::loop_isolation(false)]
    pub fn toggle_metadata(&self, id: &String, label: &String, user: &String) -> (r: Thread)
        ensures
            r@ == tv_toggle(self@, id@, (label@, user@)),
        decreases *self,
    {
        let ghost p = (label@, user@);
        let ghost v = self.entries@;
        let mut out: Vec<Comment> = Vec::new();
        let n = self.entries.len();
        let mut i: usize = 0;
        proof {
            assert(v.subrange(0, n as int) =~= v);
            assert(out@ =~= Seq::<Comment>::empty());
            assert(sv_view(out@) + tv_toggle(self@, id@, p) =~= tv_toggle(self@, id@, p));
        }
        while i < n
            invariant
                i <= n,
                tv_toggle(self@, id@, p) == sv_view(out@) + tv_toggle(
                    sv_view(v.subrange(i as int, n as int)),
                    id@,
                    p,
                ),
            decreases n - i,
        {
            proof {
                lemma_sv_view_index(v.subrange(i as int, n as int));
                assert(v.subrange(i as int, n as int)[0] == v[i as int]);
                assert(v.subrange(i as int, n as int).subrange(
                    1,
                    (n - i) as int,
                ) =~= v.subrange(i as int + 1, n as int));
                assert(sv_view(v.subrange(i as int, n as int))[0] == cv_view(v[i as int]));
                assert(sv_view(v.subrange(i as int, n as int)).subrange(
                    1,
                    (n - i) as int,
                ) =~= sv_view(v.subrange(i as int + 1, n as int))) by {
                    lemma_sv_view_index(v.subrange(i as int + 1, n as int));
                }
                assert(decreases_to!(*self => self.entries));
                assert(decreases_to!(self.entries => self.entries@));
                assert(decreases_to!(self.entries@ => self.entries@[i as int]));
                assert(decreases_to!(self.entries@[i as int] => self.entries@[i as int].replies));
            }
            let e = &self.entries[i];
            let hit = e.id.eq(id);
            let c2 = Comment {
                id: e.id.clone(),
                content: e.content.clone(),
                user_id: e.user_id.clone(),
                created_at: e.created_at,
                parent_id: clone_opt_string(&e.parent_id),
                metadata: if hit {
                    md_toggle(&e.metadata, label, user)
                } else {
                    md_clone(&e.metadata)
                },
                replies: e.replies.toggle_metadata(id, label, user),
            };
            let ghost before = out@;
            out.push(c2);
            proof {
                if !hit {
                    lemma_md_set_pointwise(out@[out@.len() - 1].metadata@, e.metadata@);
                }
                assert(out@[out@.len() - 1]@ == cv_toggle(cv_view(v[i as int]), id@, p));
                lemma_sv_view_push(before, out@[out@.len() - 1]);
                assert(sv_view(out@) + tv_toggle(
                    sv_view(v.subrange(i as int + 1, n as int)),
                    id@,
                    p,
                ) =~= sv_view(before) + tv_toggle(sv_view(v.subrange(i as int, n as int)), id@, p));
            }
            i = i + 1;
        }
        proof {
            assert(v.subrange(n as int, n as int) =~= Seq::<Comment>::empty());
            assert(sv_view(out@) + tv_toggle(
                sv_view(v.subrange(n as int, n as int)),
                id@,
                p,
            ) =~= sv_view(out@));
        }
        Thread { entries: out }
    }

    /// Append a fresh comment built from `input` to the reply thread of the
    /// first comment whose id is `parent`; `None` when no comment has it.
    #[verifier::loop_isolation(false)]
    pub fn insert_under(&self, parent: &String, input: &CommentInput) -> (r: Option<Thread>)
        ensures
            match r {
                Some(t) => tv_append(self@, parent@, new_cv(input@)) == Some(t@),
                None => tv_append(self@, parent@, new_cv(input@)) is None,
            },
        decreases *self,
    {
        let ghost nv = new_cv(input@);
        let ghost v = self.entries@;
        let mut out: Vec<Comment> = Vec::new();
        let n = self.entries.len();
        let mut i: usize = 0;
        proof {
            assert(v.subrange(0, n as int) =~= v);
            assert(out@ =~= Seq::<Comment>::empty());
        }
        while i < n
            invariant
                i <= n,
                sv_view(out@) == sv_view(v.subrange(0, i as int)),
                forall|j: int| 0 <= j < i ==> cv_append(
                    #[trigger] cv_view(v[j]),
                    parent@,
                    nv,
                ) is None,
                tv_append(self@, parent@, nv) == match tv_append(
                    sv_view(v.subrange(i as int, n as int)),
                    parent@,
                    nv,
                ) {
                    Some(rr) => Some(sv_view(v.subrange(0, i as int)) + rr),
                    None => None,
                },
            decreases n - i,
        {
            proof {
                lemma_sv_view_index(v.subrange(i as int, n as int));
                assert(v.subrange(i as int, n as int)[0] == v[i as int]);
                assert(v.subrange(i as int, n as int).subrange(
                    1,
                    (n - i) as int,
                ) =~= v.subrange(i as int + 1, n as int));
                assert(sv_view(v.subrange(i as int, n as int))[0] == cv_view(v[i as int]));
                assert(sv_view(v.subrange(i as int, n as int)).subrange(
                    1,
                    (n - i) as int,
                ) =~= sv_view(v.subrange(i as int + 1, n as int))) by {
                    lemma_sv_view_index(v.subrange(i as int + 1, n as int));
                }
                assert(decreases_to!(*self => self.entries));
                assert(decreases_to!(self.entries => self.entries@));
                assert(decreases_to!(self.entries@ => self.entries@[i as int]));
                assert(decreases_to!(self.entries@[i as int] => self.entries@[i as int].replies));
            }
            let e = &self.entries[i];
            let hit = e.id.eq(parent);
            let new_replies: Option<Thread> = if hit {
                let mut r2 = e.replies.deep_clone();
                let ghost before2 = r2.entries@;
                r2.entries.push(Comment::from_input(input));
                proof {
                    lemma_sv_view_push(before2, r2.entries@[r2.entries@.len() - 1]);
                }
                Some(r2)
            } else {
                e.replies.insert_under(parent, input)
            };
            match new_replies {
                Some(r2) => {
                    let c2 = Comment {
                        id: e.id.clone(),
                        content: e.content.clone(),
                        user_id: e.user_id.clone(),
                        created_at: e.created_at,
                        parent_id: clone_opt_string(&e.parent_id),
                        metadata: md_clone(&e.metadata),
                        replies: r2,
                    };
                    proof {
                        lemma_md_set_pointwise(c2.metadata@, e.metadata@);
                        assert(cv_append(cv_view(v[i as int]), parent@, nv) == Some(c2@));
                        assert(tv_append(sv_view(v.subrange(i as int, n as int)), parent@, nv)
                            == Some(seq![c2@] + sv_view(v.subrange(i as int + 1, n as int))));
                    }
                    let ghost before = out@;
                    out.push(c2);
                    proof {
                        lemma_sv_view_push(before, out@[out@.len() - 1]);
                    }
                    let mut j: usize = i + 1;
                    while j < n
                        invariant
                            i + 1 <= j <= n,
                            sv_view(out@) == sv_view(v.subrange(0, i as int)) + seq![
                                cv_append(cv_view(v[i as int]), parent@, nv)->Some_0,
                            ] + sv_view(v.subrange(i as int + 1, j as int)),
                        decreases n - j,
                    {
                        proof {
                            assert(decreases_to!(*self => self.entries));
                            assert(decreases_to!(self.entries => self.entries@));
                            assert(decreases_to!(self.entries@ => self.entries@[j as int]));
                        }
                        let ghost before3 = out@;
                        out.push(self.entries[j].deep_clone());
                        proof {
                            lemma_sv_view_push(before3, out@[out@.len() - 1]);
                            lemma_sv_view_push(
                                v.subrange(i as int + 1, j as int),
                                v[j as int],
                            );
                            assert(v.subrange(i as int + 1, j as int).push(v[j as int])
                                =~= v.subrange(i as int + 1, j as int + 1));
                        }
                        j = j + 1;
                    }
                    proof {
                        assert(sv_view(out@) =~= sv_view(v.subrange(0, i as int)) + (seq![
                            cv_append(cv_view(v[i as int]), parent@, nv)->Some_0,
                        ] + sv_view(v.subrange(i as int + 1, n as int))));
                    }
                    return Some(Thread { entries: out });
                },
                None => {
                    proof {
                        assert(cv_append(cv_view(v[i as int]), parent@, nv) is None);
                    }
                    let c2 = Comment {
                        id: e.id.clone(),
                        content: e.content.clone(),
                        user_id: e.user_id.clone(),
                        created_at: e.created_at,
                        parent_id: clone_opt_string(&e.parent_id),
                        metadata: md_clone(&e.metadata),
                        replies: e.replies.deep_clone(),
                    };
                    proof {
                        lemma_md_set_pointwise(c2.metadata@, e.metadata@);
                        assert(c2@ == cv_view(v[i as int]));
                    }
                    let ghost before = out@;
                    out.push(c2);
                    proof {
                        lemma_sv_view_push(before, out@[out@.len() - 1]);
                        lemma_sv_view_push(v.subrange(0, i as int), v[i as int]);
                        assert(v.subrange(0, i as int).push(v[i as int]) =~= v.subrange(
                            0,
                            i as int + 1,
                        ));
                        assert forall|rr: Seq<CommentV>|
                            sv_view(v.subrange(0, i as int)) + (seq![cv_view(v[i as int])] + rr)
                                =~= sv_view(v.subrange(0, i as int + 1)) + rr by {}
                    }
                },
            }
            i = i + 1;
        }
        proof {
            assert(v.subrange(n as int, n as int) =~= Seq::<Comment>::empty());
        }
        None
    }

    /// Upsert: update the content of an existing comment, or
    /// insert a fresh one at the root or under its parent.
    pub fn upsert(&self, input: &CommentInput) -> (r: Result<Thread, CommentError>)
        ensures
            match r {
                Ok(t) => tv_upsert(self@, input@) == Some(t@),
                Err(e) => tv_upsert(self@, input@) is None && e == CommentError::ParentNotFound,
            },
    {
        if self.contains(&input.id) {
            Ok(self.update_content(&input.id, &input.content))
        } else {
            match &input.parent_id {
                None => {
                    let mut out = self.deep_clone();
                    let ghost before = out.entries@;
                    out.entries.push(Comment::from_input(input));
                    proof {
                        lemma_sv_view_push(before, out.entries@[out.entries@.len() - 1]);
                    }
                    Ok(out)
                },
                Some(p) => {
                    match self.insert_under(p, input) {
                        Some(t) => Ok(t),
                        None => Err(CommentError::ParentNotFound),
                    }
                },
            }
        }
    }
}

/// Why a comment mutation is refused.
#[derive(PartialEq, Eq, Structural, Clone, Copy, Debug)]
pub enum CommentError {
    /// An upsert named a parent id that no comment in the channel has.
    ParentNotFound,
    /// The acting caller is not the author of the targeted comment.
    Unauthorized,
}

} // verus!
