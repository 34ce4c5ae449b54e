//! What the content server replies for each path, as a pure function
//! of one snapshot. The transport around it only reads the current
//! snapshot and sends the chosen reply.

use crate::pipeline::PreparedContent;
use crate::pipeline::PreparedView;
use crate::text::eq_at;
use crate::text::push_all;
use vstd::prelude::*;
use vstd::string::StringSliceAdditionalSpecFns;

verus! {

/// One reply of the content server.
pub struct Reply {
    /// The status code: 200, 204 or 404.
    pub status: u16,
    /// The media type, absent for a reply without a body.
    pub content_type: Option<Vec<u8>>,
    /// The body, absent for a reply without one.
    pub body: Option<Vec<u8>>,
}

/// The mathematical shape of `Reply`.
pub struct ReplyView {
    /// The status code.
    pub status: u16,
    /// The media type, if any.
    pub content_type: Option<Seq<u8>>,
    /// The body, if any.
    pub body: Option<Seq<u8>>,
}

impl View for Reply {
    type V = ReplyView;

    open spec fn view(&self) -> ReplyView {
        ReplyView {
            status: self.status,
            content_type: match self.content_type {
                Some(v) => Some(v@),
                None => None,
            },
            body: match self.body {
                Some(v) => Some(v@),
                None => None,
            },
        }
    }
}

/// A successful reply carrying a section.
pub open spec fn ok_reply(ct: Seq<u8>, body: Seq<u8>) -> ReplyView {
    ReplyView { status: 200, content_type: Some(ct), body: Some(body) }
}

/// The reply for a section that is absent from the snapshot.
pub open spec fn missing_reply() -> ReplyView {
    ReplyView {
        status: 404,
        content_type: Some("text/plain".spec_bytes()),
        body: Some("Resource not found".spec_bytes()),
    }
}

/// The reply for a path the server does not serve.
pub open spec fn unknown_path_reply() -> ReplyView {
    ReplyView {
        status: 404,
        content_type: Some("text/plain".spec_bytes()),
        body: Some("Page not found".spec_bytes()),
    }
}

/// What the server replies for `path`, reading the snapshot `p`: the
/// injected markup at the root, the final styling and the raw script
/// at their paths (404 when the section is absent), an empty reply for
/// the favicon, and 404 for anything else.
pub open spec fn respond_spec(p: PreparedView, path: Seq<u8>) -> ReplyView {
    if path == "/".spec_bytes() || path == "/index.html".spec_bytes() {
        match p.html_injected {
            Some(b) => ok_reply("text/html; charset=utf-8".spec_bytes(), b),
            None => missing_reply(),
        }
    } else if path == "/style.css".spec_bytes() {
        match p.parsed.styling {
            Some(b) => ok_reply("text/css; charset=utf-8".spec_bytes(), b),
            None => missing_reply(),
        }
    } else if path == "/script.js".spec_bytes() {
        match p.parsed.script {
            Some(b) => ok_reply("application/javascript; charset=utf-8".spec_bytes(), b),
            None => missing_reply(),
        }
    } else if path == "/favicon.ico".spec_bytes() {
        ReplyView { status: 204, content_type: None, body: None }
    } else {
        unknown_path_reply()
    }
}

/// Are two byte strings equal?
pub fn bytes_eq(a: &[u8], b: &[u8]) -> (r: bool)
    ensures
        r == (a@ == b@),
{
    if a.len() != b.len() {
        return false;
    }
    let r = eq_at(a, b, 0);
    proof {
        assert(a@.subrange(0, b@.len() as int) =~= a@);
    }
    r
}

fn copy_bytes(v: &Vec<u8>) -> (r: Vec<u8>)
    ensures
        r@ == v@,
{
    vstd::slice::slice_to_vec(v.as_slice())
}

fn section_reply(section: Option<&Vec<u8>>, ct: &str) -> (r: Reply)
    ensures
        r@ == match section {
            Some(b) => ok_reply(ct.spec_bytes(), b@),
            None => missing_reply(),
        },
{
    match section {
        Some(b) => Reply {
            status: 200,
            content_type: Some(str_bytes(ct)),
            body: Some(copy_bytes(b)),
        },
        None => missing(),
    }
}

fn str_bytes(s: &str) -> (r: Vec<u8>)
    ensures
        r@ == s.spec_bytes(),
{
    let mut v: Vec<u8> = Vec::new();
    push_all(&mut v, s.as_bytes());
    proof {
        assert(v@ =~= s.spec_bytes());
    }
    v
}

fn missing() -> (r: Reply)
    ensures
        r@ == missing_reply(),
{
    Reply {
        status: 404,
        content_type: Some(str_bytes("text/plain")),
        body: Some(str_bytes("Resource not found")),
    }
}

/// Chooses the reply for `path` out of the snapshot `p`.
pub fn respond(p: &PreparedContent, path: &[u8]) -> (r: Reply)
    ensures
        r@ == respond_spec(p@, path@),
{
    if bytes_eq(path, "/".as_bytes()) || bytes_eq(path, "/index.html".as_bytes()) {
        section_reply(p.html_injected.as_ref(), "text/html; charset=utf-8")
    } else if bytes_eq(path, "/style.css".as_bytes()) {
        section_reply(p.parsed.styling.as_ref(), "text/css; charset=utf-8")
    } else if bytes_eq(path, "/script.js".as_bytes()) {
        section_reply(p.parsed.script.as_ref(), "application/javascript; charset=utf-8")
    } else if bytes_eq(path, "/favicon.ico".as_bytes()) {
        Reply { status: 204, content_type: None, body: None }
    } else {
        Reply {
            status: 404,
            content_type: Some(str_bytes("text/plain")),
            body: Some(str_bytes("Page not found")),
        }
    }
}

} // verus!
