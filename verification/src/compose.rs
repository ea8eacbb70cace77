//! A message being written.
use vstd::prelude::*;

verus! {

/// What the compose window holds.
#[derive(Debug)]
pub struct ComposeState {
    pub to: String,
    pub cc: String,
    pub bcc: String,
    pub subject: String,
    pub body: String,
    /// Message ids that tie a reply to what it answers.
    pub in_reply_to: Option<String>,
    pub references: Option<String>,
    /// File names and contents.
    pub attachments: Vec<(String, Vec<u8>)>,
}

/// Whether nothing was written yet.
pub open spec fn is_blank(c: ComposeState) -> bool {
    &&& c.to@.len() == 0
    &&& c.cc@.len() == 0
    &&& c.bcc@.len() == 0
    &&& c.subject@.len() == 0
    &&& c.body@.len() == 0
    &&& c.in_reply_to is None
    &&& c.references is None
    &&& c.attachments@.len() == 0
}

impl Default for ComposeState {
    fn default() -> (r: Self)
        ensures
            is_blank(r),
    {
        ComposeState {
            to: String::new(),
            cc: String::new(),
            bcc: String::new(),
            subject: String::new(),
            body: String::new(),
            in_reply_to: None,
            references: None,
            attachments: Vec::new(),
        }
    }
}

fn copy_text(t: &Option<String>) -> (r: Option<String>)
    ensures
        r == *t,
{
    match t {
        Some(s) => Some(s.clone()),
        None => None,
    }
}

/// The same bytes again.
pub fn copy_bytes(data: &Vec<u8>) -> (r: Vec<u8>)
    ensures
        r@ == data@,
{
    let mut out: Vec<u8> = Vec::new();
    let mut i: usize = 0;
    while i < data.len()
        invariant
            i <= data.len(),
            out@ == data@.take(i as int),
        decreases data.len() - i,
    {
        out.push(data[i]);
        i = i + 1;
        assert(out@ == data@.take(i as int));
    }
    assert(data@.take(data@.len() as int) == data@);
    out
}

/// Whether two messages say the same, attachments included.
pub open spec fn same_message(a: ComposeState, b: ComposeState) -> bool {
    &&& a.to == b.to
    &&& a.cc == b.cc
    &&& a.bcc == b.bcc
    &&& a.subject == b.subject
    &&& a.body == b.body
    &&& a.in_reply_to == b.in_reply_to
    &&& a.references == b.references
    &&& a.attachments@.len() == b.attachments@.len()
    &&& forall|i: int|
        0 <= i < a.attachments@.len() ==> (#[trigger] a.attachments@[i]).0 == b.attachments@[i].0
            && a.attachments@[i].1@ == b.attachments@[i].1@
}

impl Clone for ComposeState {
    fn clone(&self) -> (r: Self)
        ensures
            same_message(r, *self),
    {
        let mut attachments: Vec<(String, Vec<u8>)> = Vec::new();
        let mut i: usize = 0;
        while i < self.attachments.len()
            invariant
                i <= self.attachments.len(),
                attachments@.len() == i,
                forall|k: int|
                    0 <= k < i ==> (#[trigger] attachments@[k]).0 == self.attachments@[k].0
                        && attachments@[k].1@ == self.attachments@[k].1@,
            decreases self.attachments.len() - i,
        {
            let name = self.attachments[i].0.clone();
            let data = copy_bytes(&self.attachments[i].1);
            attachments.push((name, data));
            i = i + 1;
        }
        ComposeState {
            to: self.to.clone(),
            cc: self.cc.clone(),
            bcc: self.bcc.clone(),
            subject: self.subject.clone(),
            body: self.body.clone(),
            in_reply_to: copy_text(&self.in_reply_to),
            references: copy_text(&self.references),
            attachments,
        }
    }
}

/// A new message is empty in every field, and what is written in one makes it no
/// new message any more.
pub proof fn new_messages_are_empty(c: ComposeState)
    ensures
        is_blank(c) <==> c.to@.len() == 0 && c.cc@.len() == 0 && c.bcc@.len() == 0
            && c.subject@.len() == 0 && c.body@.len() == 0 && c.in_reply_to is None
            && c.references is None && c.attachments@.len() == 0,
{
}

/// A copy of a message has each of its fields and each attachment, by name and
/// content.
pub proof fn copies_keep_every_field(a: ComposeState, b: ComposeState, i: int)
    requires
        same_message(a, b),
    ensures
        a.to@ == b.to@ && a.cc@ == b.cc@ && a.bcc@ == b.bcc@,
        a.subject@ == b.subject@ && a.body@ == b.body@,
        a.in_reply_to == b.in_reply_to && a.references == b.references,
        a.attachments@.len() == b.attachments@.len(),
        0 <= i < a.attachments@.len() ==> a.attachments@[i].0@ == b.attachments@[i].0@
            && a.attachments@[i].1@ == b.attachments@[i].1@,
{
}

} // verus!
