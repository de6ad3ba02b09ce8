//! `POST api/message/...`: the messages addressed to the user.

use crate::routes::Route;
use crate::utils::text::same_text;
use vstd::prelude::*;

verus! {

/// A date and time of day without a time zone.
#[verifier::external_type_specification]
#[verifier::external_body]
pub struct ExNaiveDateTime(chrono::NaiveDateTime);

/// `POST api/message/getMyMessages`, with an empty body.
pub struct MyMessagesRoute {}

impl Route for MyMessagesRoute {
    fn get_route() -> (r: &'static str)
        ensures
            r@ == "api/message/getMyMessages"@,
    {
        "api/message/getMyMessages"
    }
}

/// `POST api/message/markAsRead`: mark one message read. The response is not
/// used.
pub struct MarkMessageReadRoute {
    pub message_id: i64,
}

impl Route for MarkMessageReadRoute {
    fn get_route() -> (r: &'static str)
        ensures
            r@ == "api/message/markAsRead"@,
    {
        "api/message/markAsRead"
    }
}

/// The messages addressed to the user.
#[derive(Debug)]
pub struct MyMessagesResponse(pub Vec<Message>);

#[derive(Debug)]
pub struct Message {
    pub id: i64,
    pub subject: String,
    pub text: String,
    pub time_sent: chrono::NaiveDateTime,
    /// `None` while unread.
    pub time_read: Option<chrono::NaiveDateTime>,
    pub recipient_string: String,
    pub from_name: String,
    pub submissions: Vec<MessageSubmission>,
}

/// An attachment on a [`Message`].
#[derive(Debug)]
pub struct MessageSubmission {
    /// The attachment's `type`.
    pub kind: String,
    pub is_downloadable: bool,
    pub id: Option<i64>,
    pub message_id: Option<i64>,
    pub original_name: Option<String>,
    pub file: Option<String>,
}

/// Whether an attachment is one the official client surfaces: a file marked
/// downloadable with every id and name present.
pub open spec fn is_downloadable_file_spec(s: MessageSubmission) -> bool {
    &&& s.kind@ == "file"@
    &&& s.is_downloadable
    &&& s.id is Some
    &&& s.message_id is Some
    &&& s.original_name is Some
    &&& s.file is Some
}

/// The entries of a list of attachments that a message surfaces, in order.
pub open spec fn downloadable_of(subs: Seq<MessageSubmission>) -> Seq<MessageSubmission> {
    subs.filter(|s: MessageSubmission| is_downloadable_file_spec(s))
}

/// Law: the attachments a message surfaces are exactly its entries of type
/// `file`, marked downloadable, with `id`, `messageId`, `originalName` and
/// `file` all present. Every kept entry has all of these (so one without an
/// `originalName` is never kept), every such entry is kept, and nothing is
/// kept that the message does not hold.
pub proof fn lemma_downloadable_files_exact(subs: Seq<MessageSubmission>)
    ensures
        forall|k: int|
            0 <= k < downloadable_of(subs).len() ==> {
                let s = #[trigger] downloadable_of(subs)[k];
                &&& s.kind@ == "file"@
                &&& s.is_downloadable
                &&& s.id is Some
                &&& s.message_id is Some
                &&& s.original_name is Some
                &&& s.file is Some
                &&& subs.contains(s)
            },
        forall|k: int|
            0 <= k < subs.len() && subs[k].kind@ == "file"@ && subs[k].is_downloadable
                && subs[k].id is Some && subs[k].message_id is Some && subs[k].original_name is Some
                && subs[k].file is Some ==> downloadable_of(subs).contains(#[trigger] subs[k]),
        forall|s: MessageSubmission|
            s.original_name is None ==> !#[trigger] downloadable_of(subs).contains(s),
{
    let pred = |s: MessageSubmission| is_downloadable_file_spec(s);
    let f = subs.filter(pred);
    assert(f == downloadable_of(subs));
    assert forall|k: int| 0 <= k < f.len() implies {
        let s = #[trigger] f[k];
        &&& s.kind@ == "file"@
        &&& s.is_downloadable
        &&& s.id is Some
        &&& s.message_id is Some
        &&& s.original_name is Some
        &&& s.file is Some
        &&& subs.contains(s)
    } by {
        subs.lemma_filter_pred(pred, k);
        assert(f.contains(f[k]));
        subs.lemma_filter_contains_rev(pred, f[k]);
    }
    assert forall|k: int|
        0 <= k < subs.len() && subs[k].kind@ == "file"@ && subs[k].is_downloadable
            && subs[k].id is Some && subs[k].message_id is Some && subs[k].original_name is Some
            && subs[k].file is Some implies f.contains(#[trigger] subs[k]) by {
        subs.lemma_filter_contains(pred, k);
    }
    assert forall|s: MessageSubmission| s.original_name is None implies !#[trigger] f.contains(
        s,
    ) by {
        if f.contains(s) {
            let k = choose|k: int| 0 <= k < f.len() && f[k] == s;
            subs.lemma_filter_pred(pred, k);
        }
    }
}

impl Message {
    pub fn is_unread(&self) -> (r: bool)
        ensures
            r == (self.time_read is None),
    {
        self.time_read.is_none()
    }

    /// The request that marks this message read on the server; the local
    /// `time_read` field is left untouched.
    pub fn mark_read_route(&self) -> (r: MarkMessageReadRoute)
        ensures
            r.message_id == self.id,
    {
        MarkMessageReadRoute { message_id: self.id }
    }

    /// The attachments the official client would surface, in order.
    pub fn downloadable_files(&self) -> (r: Vec<&MessageSubmission>)
        ensures
            r@.map_values(|x: &MessageSubmission| *x) == downloadable_of(self.submissions@),
    {
        let ghost pred = |s: MessageSubmission| is_downloadable_file_spec(s);
        let n = self.submissions.len();
        let mut out: Vec<&MessageSubmission> = Vec::new();
        let mut i: usize = 0;
        assert(self.submissions@.subrange(0, 0).filter(pred) =~= Seq::<MessageSubmission>::empty())
            by {
            reveal_with_fuel(Seq::<_>::filter, 1);
        }
        while i < n
            invariant
                i <= n,
                n == self.submissions@.len(),
                pred == (|s: MessageSubmission| is_downloadable_file_spec(s)),
                out@.map_values(|x: &MessageSubmission| *x) == self.submissions@.subrange(
                    0,
                    i as int,
                ).filter(pred),
            decreases n - i,
        {
            let s = &self.submissions[i];
            let ghost before = out@;
            let keep = s.is_downloadable_file();
            if keep {
                out.push(s);
            }
            proof {
                let pre = self.submissions@.subrange(0, i + 1);
                assert(pre.drop_last() =~= self.submissions@.subrange(0, i as int));
                assert(pre.last() == *s);
                reveal_with_fuel(Seq::<_>::filter, 1);
                assert(out@.map_values(|x: &MessageSubmission| *x) =~= pre.filter(pred));
            }
            i = i + 1;
        }
        assert(self.submissions@.subrange(0, n as int) =~= self.submissions@);
        out
    }
}

impl MessageSubmission {
    /// Whether this entry is a downloadable file with all of `id`,
    /// `messageId`, `originalName` and `file` present.
    pub fn is_downloadable_file(&self) -> (r: bool)
        ensures
            r == is_downloadable_file_spec(*self),
    {
        same_text(self.kind.as_str(), "file") && self.is_downloadable && self.id.is_some()
            && self.message_id.is_some() && self.original_name.is_some() && self.file.is_some()
    }
}

} // verus!
