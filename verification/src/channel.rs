//! Channels and the channel store: one lazily created channel per channel id,
//! every mutation dispatched through a single authorization-checking entry
//! point that compares the acting caller with the target comment's author.
use vstd::prelude::*;
use crate::thread::Comment;
use crate::thread::CommentError;
use crate::thread::CommentInput;
use crate::thread::CommentInputV;
use crate::thread::CommentV;
use crate::thread::MetadataInput;
use crate::thread::Thread;
use crate::thread::clone_opt_string;
use crate::thread::tv_delete;
use crate::thread::tv_lookup;
use crate::thread::tv_toggle;
use crate::thread::tv_upsert;
use crate::page::Page;
use crate::page::page_view;

verus! {

broadcast use vstd::string::group_string_axioms;

/// A named discussion space: an id and its top-level thread.
pub struct Channel {
    pub id: String,
    pub thread: Thread,
}

impl Channel {
    /// A fresh channel with an empty thread.
    pub fn new(id: String) -> (c: Channel)
        ensures
            c.id@ == id@,
            c.thread@ == Seq::<CommentV>::empty(),
    {
        Channel { id, thread: Thread::new() }
    }

    /// First comment with the given id, at any nesting level.
    pub fn get_comment<'a>(&'a self, comment_id: &String) -> (r: Option<&'a Comment>)
        ensures
            match r {
                Some(c) => tv_lookup(self.thread@, comment_id@) == Some(c@),
                None => tv_lookup(self.thread@, comment_id@) is None,
            },
    {
        self.thread.lookup(comment_id)
    }

    /// Upsert into this channel's thread; `Ok` carries the comment's id.
    pub fn upsert_comment(&mut self, input: &CommentInput) -> (r: Result<String, CommentError>)
        ensures
            final(self).id == old(self).id,
            match r {
                Ok(idr) => idr@ == input.id@ && tv_upsert(old(self).thread@, input@) == Some(
                    final(self).thread@,
                ),
                Err(e) => e == CommentError::ParentNotFound && tv_upsert(
                    old(self).thread@,
                    input@,
                ) is None && final(self).thread@ == old(self).thread@,
            },
    {
        match self.thread.upsert(input) {
            Ok(t) => {
                self.thread = t;
                Ok(input.id.clone())
            },
            Err(e) => Err(e),
        }
    }

    /// Remove the comment with this id and its whole reply subtree; a no-op
    /// when the id is absent.
    pub fn delete_comment(&mut self, comment_id: &String)
        ensures
            final(self).id == old(self).id,
            final(self).thread@ == tv_delete(old(self).thread@, comment_id@),
    {
        let t = self.thread.delete(comment_id);
        self.thread = t;
    }

    /// Toggle one (label, user) metadata pair on the comment with this id; a
    /// no-op when the id is absent.
    pub fn toggle_comment_metadata(&mut self, comment_id: &String, input: &MetadataInput)
        ensures
            final(self).id == old(self).id,
            final(self).thread@ == tv_toggle(
                old(self).thread@,
                comment_id@,
                (input.label@, input.user_id@),
            ),
    {
        let t = self.thread.toggle_metadata(comment_id, &input.label, &input.user_id);
        self.thread = t;
    }

    /// The page of this channel's top-level comments.
    pub fn get_page(&self, limit: usize, cursor: Option<&String>) -> (p: Page)
        ensures
            p@ == page_view(
                self.thread@,
                limit as nat,
                match cursor {
                    Some(c) => Some(c@),
                    None => None,
                },
            ),
    {
        self.thread.get_page(limit, cursor)
    }
}

/// First index whose channel has the given id; the length when none has it.
pub open spec fn chan_idx(s: Seq<Channel>, id: Seq<char>) -> int
    decreases s,
{
    if s.len() == 0 {
        0
    } else if s[0].id@ == id {
        0
    } else {
        1 + chan_idx(s.subrange(1, s.len() as int), id)
    }
}

/// `chan_idx` against the first matching index.
pub proof fn lemma_chan_idx_first(s: Seq<Channel>, id: Seq<char>, k: int)
    requires
        0 <= k <= s.len(),
        forall|j: int| 0 <= j < k ==> s[j].id@ != id,
        k < s.len() ==> s[k].id@ == id,
    ensures
        chan_idx(s, id) == if k < s.len() {
            k
        } else {
            s.len() as int
        },
    decreases s.len(),
{
    if s.len() > 0 {
        if k == 0 {
        } else {
            let rest = s.subrange(1, s.len() as int);
            assert forall|j: int| 0 <= j < k - 1 implies rest[j].id@ != id by {
                assert(rest[j] == s[j + 1]);
            }
            assert(k - 1 < rest.len() ==> rest[k - 1].id@ == id);
            lemma_chan_idx_first(rest, id, k - 1);
        }
    }
}

/// The per-node channel store: all channels this node owns, each id held by
/// at most the first channel carrying it.
pub struct ChannelStore {
    pub channels: Vec<Channel>,
}

impl ChannelStore {
    /// An empty store.
    pub fn new() -> (s: ChannelStore)
        ensures
            s.channels@ == Seq::<Channel>::empty(),
    {
        ChannelStore { channels: Vec::new() }
    }

    /// Index of the first channel with this id.
    #[verifier::loop_isolation(false)]
    pub fn find_channel(&self, id: &String) -> (r: Option<usize>)
        ensures
            match r {
                Some(j) => j < self.channels@.len() && j as int == chan_idx(self.channels@, id@)
                    && self.channels@[j as int].id@ == id@,
                None => chan_idx(self.channels@, id@) == self.channels@.len(),
            },
    {
        let n = self.channels.len();
        let mut j: usize = 0;
        while j < n
            invariant
                j <= n,
                forall|k: int| 0 <= k < j ==> self.channels@[k].id@ != id@,
            decreases n - j,
        {
            if self.channels[j].id.eq(id) {
                proof {
                    lemma_chan_idx_first(self.channels@, id@, j as int);
                }
                return Some(j);
            }
            j = j + 1;
        }
        proof {
            lemma_chan_idx_first(self.channels@, id@, n as int);
        }
        None
    }
}

/// A mutation intent, dispatched through the authorization guard.
pub enum CommentAction {
    /// Create or update a comment from this input.
    Upsert(CommentInput),
    /// Remove the comment with this id and its reply subtree.
    Delete(String),
}

/// What a permitted action produced.
pub enum ActionOutput {
    /// An upsert went through; carries the comment's id.
    Upserted(String),
    /// A delete went through.
    Deleted,
}

/// The thread `t1` and result `r` a permitted action leaves behind, given the
/// thread `t0` it found.
pub open spec fn action_applied(
    t0: Seq<CommentV>,
    t1: Seq<CommentV>,
    action: CommentAction,
    r: Result<ActionOutput, CommentError>,
) -> bool {
    match action {
        CommentAction::Upsert(inp) => match tv_upsert(t0, inp@) {
            Some(t) => t1 == t && (r matches Ok(o) && o matches ActionOutput::Upserted(idr)
                && idr@ == inp.id@),
            None => t1 == t0 && r == Err::<ActionOutput, CommentError>(
                CommentError::ParentNotFound,
            ),
        },
        CommentAction::Delete(did) => t1 == tv_delete(t0, did@) && r == Ok::<
            ActionOutput,
            CommentError,
        >(ActionOutput::Deleted),
    }
}

/// The authorization guard and dispatcher: resolve or lazily
/// create the channel, look the target comment up, refuse the action when the
/// comment exists and its author differs from the acting caller, and apply it
/// otherwise. A missing comment id never blocks the action: fresh ids bypass
/// authorization.
pub fn authenticate_user_and_comment_action(
    store: &mut ChannelStore,
    channel_id: &String,
    comment_id: &String,
    user_id: &String,
    action: &CommentAction,
) -> (r: Result<ActionOutput, CommentError>)
    requires
        action matches CommentAction::Upsert(inp) ==> inp.id@ == comment_id@,
    ensures
        ({
            let oldc = old(store).channels@;
            let newc = final(store).channels@;
            let j = chan_idx(oldc, channel_id@);
            let existed = j < oldc.len();
            let t0 = if existed {
                oldc[j].thread@
            } else {
                Seq::<CommentV>::empty()
            };
            &&& newc.len() == if existed {
                oldc.len()
            } else {
                oldc.len() + 1
            }
            &&& forall|k: int| 0 <= k < oldc.len() && k != j ==> newc[k] == oldc[k]
            &&& newc[j].id@ == channel_id@
            &&& match tv_lookup(t0, comment_id@) {
                Some(c) => if c.user_id != user_id@ {
                    r == Err::<ActionOutput, CommentError>(CommentError::Unauthorized)
                        && newc[j].thread@ == t0
                } else {
                    action_applied(t0, newc[j].thread@, *action, r)
                },
                None => action_applied(t0, newc[j].thread@, *action, r),
            }
        }),
{
    let j = match store.find_channel(channel_id) {
        Some(j) => j,
        None => {
            store.channels.push(Channel::new(channel_id.clone()));
            store.channels.len() - 1
        },
    };
    let ghost mid = store.channels@;
    let mut ch = store.channels.remove(j);
    let ghost t0 = ch.thread@;
    let permitted = match ch.get_comment(comment_id) {
        Some(c) => c.user_id.eq(user_id),
        None => true,
    };
    let res: Result<ActionOutput, CommentError> = if !permitted {
        Err(CommentError::Unauthorized)
    } else {
        match action {
            CommentAction::Upsert(inp) => {
                match ch.upsert_comment(inp) {
                    Ok(idr) => Ok(ActionOutput::Upserted(idr)),
                    Err(e) => Err(e),
                }
            },
            CommentAction::Delete(did) => {
                ch.delete_comment(did);
                Ok(ActionOutput::Deleted)
            },
        }
    };
    store.channels.insert(j, ch);
    proof {
        assert(store.channels@ =~= mid.update(j as int, store.channels@[j as int]));
    }
    res
}

/// The view of an optional string.
pub open spec fn opt_str_view(o: Option<String>) -> Option<Seq<char>> {
    match o {
        Some(s) => Some(s@),
        None => None,
    }
}

/// Request to create or update a comment.
pub struct UpsertCommentParam {
    pub channel_id: String,
    pub message: String,
    pub comment_id: String,
    pub parent_id: Option<String>,
}

/// Request to delete a comment.
pub struct DeleteCommentParam {
    pub channel_id: String,
    pub comment_id: String,
}

/// Request for a page of a channel's top-level comments.
pub struct GetThreadParam {
    pub limit: u8,
    pub channel_id: String,
    pub cursor: Option<String>,
}

/// Request to toggle a metadata label on a comment, on behalf of the caller.
pub struct ToggleMetadataParam {
    pub channel_id: String,
    pub comment_id: String,
    pub label: String,
}

/// What a permitted upsert leaves behind at the boundary: the comment's id on
/// success, an error word when the parent is missing.
pub open spec fn upsert_applied(
    t0: Seq<CommentV>,
    t1: Seq<CommentV>,
    iv: CommentInputV,
    r: Seq<char>,
) -> bool {
    match tv_upsert(t0, iv) {
        Some(t) => t1 == t && r == iv.id,
        None => t1 == t0 && r == "PARENT_NOT_FOUND"@,
    }
}

/// Create or update a comment on behalf of `user_id` at time `now`: returns
/// the comment's id, or "UNAUTHORIZED" when an existing comment's author
/// differs from the caller, or "PARENT_NOT_FOUND" for a dangling parent id.
pub fn upsert_comment(
    store: &mut ChannelStore,
    param: &UpsertCommentParam,
    user_id: &String,
    now: u64,
) -> (r: String)
    ensures
        ({
            let oldc = old(store).channels@;
            let newc = final(store).channels@;
            let j = chan_idx(oldc, param.channel_id@);
            let existed = j < oldc.len();
            let t0 = if existed {
                oldc[j].thread@
            } else {
                Seq::<CommentV>::empty()
            };
            let iv = CommentInputV {
                id: param.comment_id@,
                content: param.message@,
                parent_id: opt_str_view(param.parent_id),
                user_id: user_id@,
                created_at: now,
            };
            &&& newc.len() == if existed {
                oldc.len()
            } else {
                oldc.len() + 1
            }
            &&& forall|k: int| 0 <= k < oldc.len() && k != j ==> newc[k] == oldc[k]
            &&& newc[j].id@ == param.channel_id@
            &&& match tv_lookup(t0, param.comment_id@) {
                Some(c) => if c.user_id != user_id@ {
                    r@ == "UNAUTHORIZED"@ && newc[j].thread@ == t0
                } else {
                    upsert_applied(t0, newc[j].thread@, iv, r@)
                },
                None => upsert_applied(t0, newc[j].thread@, iv, r@),
            }
        }),
{
    let input = CommentInput {
        id: param.comment_id.clone(),
        content: param.message.clone(),
        parent_id: clone_opt_string(&param.parent_id),
        user_id: user_id.clone(),
        created_at: now,
    };
    let action = CommentAction::Upsert(input);
    match authenticate_user_and_comment_action(
        store,
        &param.channel_id,
        &param.comment_id,
        user_id,
        &action,
    ) {
        Ok(out) => match out {
            ActionOutput::Upserted(idr) => idr,
            ActionOutput::Deleted => vstd::pervasive::unreached(),
        },
        Err(e) => match e {
            CommentError::Unauthorized => "UNAUTHORIZED".to_string(),
            CommentError::ParentNotFound => "PARENT_NOT_FOUND".to_string(),
        },
    }
}

/// Delete a comment on behalf of `user_id`: "OK" on success (a missing id is
/// a silent no-op), "UNAUTHORIZED" when the author differs from the caller.
pub fn delete_comment(store: &mut ChannelStore, param: &DeleteCommentParam, user_id: &String) -> (r:
    String)
    ensures
        ({
            let oldc = old(store).channels@;
            let newc = final(store).channels@;
            let j = chan_idx(oldc, param.channel_id@);
            let existed = j < oldc.len();
            let t0 = if existed {
                oldc[j].thread@
            } else {
                Seq::<CommentV>::empty()
            };
            &&& newc.len() == if existed {
                oldc.len()
            } else {
                oldc.len() + 1
            }
            &&& forall|k: int| 0 <= k < oldc.len() && k != j ==> newc[k] == oldc[k]
            &&& newc[j].id@ == param.channel_id@
            &&& match tv_lookup(t0, param.comment_id@) {
                Some(c) => if c.user_id != user_id@ {
                    r@ == "UNAUTHORIZED"@ && newc[j].thread@ == t0
                } else {
                    newc[j].thread@ == tv_delete(t0, param.comment_id@) && r@ == "OK"@
                },
                None => newc[j].thread@ == tv_delete(t0, param.comment_id@) && r@ == "OK"@,
            }
        }),
{
    let action = CommentAction::Delete(param.comment_id.clone());
    match authenticate_user_and_comment_action(
        store,
        &param.channel_id,
        &param.comment_id,
        user_id,
        &action,
    ) {
        Ok(_) => "OK".to_string(),
        Err(_) => "UNAUTHORIZED".to_string(),
    }
}

/// Toggle a metadata label on a comment for the calling user. An anonymous
/// caller is refused and nothing changes; otherwise the channel is resolved
/// or lazily created like every other reference to its id, the (label,
/// caller) pair is toggled on the comment (a missing comment id is a silent
/// no-op), and the call reports success.
pub fn toggle_metadata(
    store: &mut ChannelStore,
    param: &ToggleMetadataParam,
    user_id: &String,
    caller_is_anonymous: bool,
) -> (r: bool)
    ensures
        r == !caller_is_anonymous,
        caller_is_anonymous ==> final(store).channels@ == old(store).channels@,
        ({
            let oldc = old(store).channels@;
            let newc = final(store).channels@;
            let j = chan_idx(oldc, param.channel_id@);
            let existed = j < oldc.len();
            let t0 = if existed {
                oldc[j].thread@
            } else {
                Seq::<CommentV>::empty()
            };
            !caller_is_anonymous ==> {
                &&& newc.len() == if existed {
                    oldc.len()
                } else {
                    oldc.len() + 1
                }
                &&& forall|k: int| 0 <= k < oldc.len() && k != j ==> newc[k] == oldc[k]
                &&& newc[j].id@ == param.channel_id@
                &&& newc[j].thread@ == tv_toggle(
                    t0,
                    param.comment_id@,
                    (param.label@, user_id@),
                )
            }
        }),
{
    if caller_is_anonymous {
        false
    } else {
        let j = match store.find_channel(&param.channel_id) {
            Some(j) => j,
            None => {
                store.channels.push(Channel::new(param.channel_id.clone()));
                store.channels.len() - 1
            },
        };
        let ghost mid = store.channels@;
        let mut ch = store.channels.remove(j);
        ch.toggle_comment_metadata(
            &param.comment_id,
            &MetadataInput { label: param.label.clone(), user_id: user_id.clone() },
        );
        store.channels.insert(j, ch);
        proof {
            assert(store.channels@ =~= mid.update(j as int, store.channels@[j as int]));
        }
        true
    }
}

/// The page of a channel's top-level comments; the channel is created empty
/// on first reference.
pub fn get_thread(store: &mut ChannelStore, param: &GetThreadParam) -> (p: Page)
    ensures
        ({
            let oldc = old(store).channels@;
            let newc = final(store).channels@;
            let j = chan_idx(oldc, param.channel_id@);
            let existed = j < oldc.len();
            let t0 = if existed {
                oldc[j].thread@
            } else {
                Seq::<CommentV>::empty()
            };
            &&& newc.len() == if existed {
                oldc.len()
            } else {
                oldc.len() + 1
            }
            &&& forall|k: int| 0 <= k < oldc.len() && k != j ==> newc[k] == oldc[k]
            &&& newc[j].id@ == param.channel_id@
            &&& newc[j].thread@ == t0
            &&& p@ == page_view(t0, param.limit as nat, opt_str_view(param.cursor))
        }),
{
    let j = match store.find_channel(&param.channel_id) {
        Some(j) => j,
        None => {
            store.channels.push(Channel::new(param.channel_id.clone()));
            store.channels.len() - 1
        },
    };
    let limit = param.limit as usize;
    let cursor: Option<&String> = match &param.cursor {
        Some(c) => Some(c),
        None => None,
    };
    store.channels[j].get_page(limit, cursor)
}

} // verus!
