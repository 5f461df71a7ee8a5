use vstd::prelude::*;

use crate::model::{holds_text, field_is, CloneError, DownloadTarget, InlineFilePayload, Source};
use crate::text::{chars_of, push_char};

verus! {

#[verifier::external_type_specification]
#[verifier::external_body]
pub struct ExDecodeError(base64::DecodeError);

/// What base64's standard engine decodes a text to: `None` when it refuses the text.
pub uninterp spec fn base64_decoded(s: Seq<char>) -> Option<Seq<u8>>;

/// Relies on `base64::Engine::decode` with the standard alphabet and padding: the bytes
/// that the text encodes, or an error when it is no such encoding.
#[verifier::external_body]
fn decode_base64(s: &str) -> (r: Result<Vec<u8>, base64::DecodeError>)
    ensures
        match r {
            Ok(v) => base64_decoded(s@) == Some(v@),
            Err(_) => base64_decoded(s@) is None,
        },
{
    base64::Engine::decode(&base64::engine::general_purpose::STANDARD, s)
}

/// `s` without its newline characters.
pub open spec fn without_newlines(s: Seq<char>) -> Seq<char>
    decreases s.len(),
{
    if s.len() == 0 {
        s
    } else if s.last() == '\n' {
        without_newlines(s.drop_last())
    } else {
        without_newlines(s.drop_last()).push(s.last())
    }
}

/// Removes the newline characters that break up inline content.
pub fn strip_newlines(s: &str) -> (r: String)
    ensures
        r@ == without_newlines(s@),
{
    let cs = chars_of(s);
    let mut out = String::new();
    let mut i: usize = 0;
    while i < cs.len()
        invariant
            i <= cs.len(),
            cs@ == s@,
            out@ == without_newlines(cs@.take(i as int)),
        decreases cs.len() - i,
    {
        assert(cs@.take(i + 1).drop_last() == cs@.take(i as int));
        if cs[i] != '\n' {
            push_char(&mut out, cs[i]);
        }
        i = i + 1;
    }
    assert(cs@.take(i as int) == s@);
    out
}

/// The name and the newline-free content of a single-object answer, when it is a file in
/// base64; `InvalidApiResponse` otherwise.
pub open spec fn inline_parts(p: InlineFilePayload) -> Result<(Seq<char>, Seq<char>), CloneError> {
    if holds_text(p.entry_type, "file"@) && holds_text(p.encoding, "base64"@) && p.name is Some
        && p.content is Some {
        Ok((p.name->Some_0@, without_newlines(p.content->Some_0@)))
    } else {
        Err(CloneError::InvalidApiResponse)
    }
}

/// Checks that a single-object answer is a file in base64, and gives its name and its
/// content without newlines.
pub fn inline_fields(p: &InlineFilePayload) -> (r: Result<(String, String), CloneError>)
    ensures
        match r {
            Ok((n, c)) => inline_parts(*p) == Ok::<(Seq<char>, Seq<char>), CloneError>((n@, c@)),
            Err(e) => inline_parts(*p) == Err::<(Seq<char>, Seq<char>), CloneError>(e),
        },
{
    proof {
        reveal_strlit("file");
        reveal_strlit("base64");
    }
    if field_is(&p.entry_type, "file") && field_is(&p.encoding, "base64") {
        match (&p.name, &p.content) {
            (Some(n), Some(c)) => {
                return Ok((n.clone(), strip_newlines(c.as_str())));
            },
            _ => {},
        }
    }
    Err(CloneError::InvalidApiResponse)
}

/// The target of an inline file: its bare name in the current directory, with the decoded
/// bytes; `ResponsePayloadInvalid` when the content did not decode.
pub fn inline_target(name: String, decoded: Option<Vec<u8>>) -> (r: Result<DownloadTarget, CloneError>)
    ensures
        match decoded {
            Some(b) => r is Ok && r->Ok_0.local_directory@.len() == 0 && r->Ok_0.file_name@ == name@
                && r->Ok_0.source == Source::InlineBytes(b),
            None => r == Err::<DownloadTarget, CloneError>(CloneError::ResponsePayloadInvalid),
        },
{
    match decoded {
        Some(b) => Ok(
            DownloadTarget { local_directory: String::new(), file_name: name, source: Source::InlineBytes(b) },
        ),
        None => Err(CloneError::ResponsePayloadInvalid),
    }
}

/// `r` is what a single-object answer gives: its file when it is a file in base64 whose
/// content, without newlines, decodes; else the error for it.
pub open spec fn inline_result(p: InlineFilePayload, r: Result<DownloadTarget, CloneError>) -> bool {
    match inline_parts(p) {
        Err(e) => r == Err::<DownloadTarget, CloneError>(e),
        Ok((n, c)) => match base64_decoded(c) {
            None => r == Err::<DownloadTarget, CloneError>(CloneError::ResponsePayloadInvalid),
            Some(bytes) => r is Ok && r->Ok_0.local_directory@.len() == 0
                && r->Ok_0.file_name@ == n && r->Ok_0.source is InlineBytes
                && r->Ok_0.source->InlineBytes_0@ == bytes,
        },
    }
}

/// Turns a single-object answer into the file it holds, decoding its base64 content after
/// removing the newlines in it.
pub fn inline_file(p: &InlineFilePayload) -> (r: Result<DownloadTarget, CloneError>)
    ensures
        inline_result(*p, r),
{
    match inline_fields(p) {
        Err(e) => Err(e),
        Ok((name, content)) => {
            let decoded = match decode_base64(content.as_str()) {
                Ok(b) => Some(b),
                Err(_) => None,
            };
            inline_target(name, decoded)
        },
    }
}

} // verus!
