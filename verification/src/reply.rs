//! What the proxy answers to an HTTP request.
use vstd::prelude::*;

use axum::http::{HeaderMap, HeaderValue};

use crate::web::header_entries;

verus! {

/// The answer to an HTTP request.
#[derive(Debug)]
pub enum Reply {
    /// A text of the proxy itself.
    Text { status: u16, text: String },
    /// What the local service answered.
    Relayed { status: u16, headers: HeaderMap<HeaderValue>, body: Vec<u8> },
}

/// What a [`Reply`] says.
pub enum ReplyView {
    Text { status: u16, text: Seq<char> },
    Relayed { status: u16, headers: Map<Seq<char>, Seq<Seq<u8>>>, body: Seq<u8> },
}

impl View for Reply {
    type V = ReplyView;

    open spec fn view(&self) -> ReplyView {
        match *self {
            Reply::Text { status, text } => ReplyView::Text { status, text: text@ },
            Reply::Relayed { status, headers, body } => ReplyView::Relayed {
                status,
                headers: header_entries(headers),
                body: body@,
            },
        }
    }
}

} // verus!
