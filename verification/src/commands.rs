//! The command surface: appending an event (content stored before the
//! frame that references it), reading content back by its hash, and the
//! diagnostic passthrough.

use vstd::prelude::*;
use vstd::string::{StrSliceExecFns, StringExecFns};
use vstd::utf8::{decode_utf8, encode_scalar, encode_utf8, valid_utf8};
use crate::cas::{cas_after_insert, digest_of, parse_hash, parsed_hash};
use crate::frame::{Frame, SYSTEM_CONTEXT, generate_id, id_text_of, id_to_text, lemma_id_text_injective};
use crate::log::{AppendError, id_fits, ids_increasing};
use crate::sink::Sink;
use crate::store::Store;

verus! {

/// Why an event append failed.
#[derive(Clone, Copy, Debug, PartialEq, Eq, Structural)]
pub enum AppendEventError {
    /// The topic is empty.
    EmptyTopic,
    /// The fresh id did not come after every id already in the log.
    StaleId,
}

/// Why a content read failed; each kind is distinct, so callers can tell
/// client mistakes from backend faults.
#[derive(Clone, Copy, Debug, PartialEq, Eq, Structural)]
pub enum ContentError {
    /// The hash string does not parse as an integrity hash.
    MalformedHash,
    /// No entry is stored under the hash.
    MissingContent,
    /// The stored bytes are not valid UTF-8.
    InvalidEncoding,
}

impl AppendEventError {
    /// The message this failure reports.
    pub open spec fn message_spec(&self) -> Seq<char> {
        match self {
            AppendEventError::EmptyTopic => "failed to append frame: empty topic"@,
            AppendEventError::StaleId => "failed to append frame: id is not past the log"@,
        }
    }

    /// The human-readable message reported to the caller.
    pub fn message(&self) -> (r: String)
        ensures
            r@ == self.message_spec(),
    {
        match self {
            AppendEventError::EmptyTopic => "failed to append frame: empty topic".to_owned(),
            AppendEventError::StaleId => "failed to append frame: id is not past the log".to_owned(
            ),
        }
    }
}

impl ContentError {
    /// The message this failure reports.
    pub open spec fn message_spec(&self) -> Seq<char> {
        match self {
            ContentError::MalformedHash => "invalid hash format"@,
            ContentError::MissingContent => "failed to read content"@,
            ContentError::InvalidEncoding => "invalid utf-8 content"@,
        }
    }

    /// The human-readable message reported to the caller; the three kinds
    /// stay distinct, so client mistakes can be told from backend faults.
    pub fn message(&self) -> (r: String)
        ensures
            r@ == self.message_spec(),
    {
        match self {
            ContentError::MalformedHash => "invalid hash format".to_owned(),
            ContentError::MissingContent => "failed to read content".to_owned(),
            ContentError::InvalidEncoding => "invalid utf-8 content".to_owned(),
        }
    }
}

/// Relies on String::from_utf8: it succeeds exactly on valid UTF-8 and
/// returns the decoding of the bytes.
#[verifier::external_body]
fn bytes_to_string(bytes: Vec<u8>) -> (r: Option<String>)
    ensures
        r is Some <==> valid_utf8(bytes@),
        r matches Some(s) ==> s@ == decode_utf8(bytes@),
{
    match String::from_utf8(bytes) {
        Ok(s) => Some(s),
        Err(_) => None,
    }
}

/// The UTF-8 encoding of a character sequence is empty exactly when the
/// sequence is.
proof fn lemma_encode_utf8_empty(s: Seq<char>)
    ensures
        encode_utf8(s).len() == 0 <==> s.len() == 0,
{
    if s.len() > 0 {
        assert(encode_scalar(s[0] as u32).len() >= 1);
    }
}

/// The frame that a successful append leaves at the end of the log: the
/// given id, the system context, the given topic, the content's digest as
/// hash (none when the content is empty; always in canonical, parseable
/// form), the given metadata, no expiry.
pub open spec fn event_frame(
    f: Frame,
    id: u128,
    topic: Seq<char>,
    content: Seq<char>,
    meta: Option<serde_json::Value>,
) -> bool {
    &&& f.id == id
    &&& f.context_id == SYSTEM_CONTEXT
    &&& f.topic@ == topic
    &&& if content.len() == 0 {
        f.hash is None
    } else {
        f.hash matches Some(h) && h@ == digest_of(encode_utf8(content)) && parsed_hash(h@) == Some(
            h@,
        )
    }
    &&& f.meta == meta
    &&& f.ttl is None
}

/// The blob store that an event append leaves behind: empty content
/// stores nothing, non-empty content is inserted under its digest before
/// the frame referencing it is appended.
pub open spec fn cas_after_event(m: Map<Seq<char>, Seq<u8>>, content: Seq<char>) -> Map<
    Seq<char>,
    Seq<u8>,
> {
    if content.len() == 0 {
        m
    } else {
        cas_after_insert(m, encode_utf8(content))
    }
}

/// Appends one event under the given id: non-empty content is first made
/// durable in the blob store, then the frame referencing it is appended,
/// then the frame is pushed to the subscriber, and the id's canonical text
/// is returned. The content is stored even when the append itself is then
/// rejected: durability of content strictly precedes the frame.
pub fn append_event_with_id(
    store: &mut Store,
    sink: &mut Sink,
    id: u128,
    topic: String,
    content: String,
    meta: Option<serde_json::Value>,
) -> (r: Result<String, AppendEventError>)
    requires
        old(store).wf(),
    ensures
        final(store).wf(),
        final(store)@.cas == cas_after_event(old(store)@.cas, content@),
        topic@.len() > 0 && id_fits(old(store)@.log, id) ==> (r matches Ok(t) && t@ == id_text_of(
            id,
        ) && final(store)@.log.len() == old(store)@.log.len() + 1 && final(store)@.log.drop_last()
            == old(store)@.log && event_frame(final(store)@.log.last(), id, topic@, content@, meta)
            && final(sink)@ == old(sink)@.push(final(store)@.log.last())),
        (r matches Err(e) && e == AppendEventError::EmptyTopic) <==> topic@.len() == 0,
        (r matches Err(e) && e == AppendEventError::StaleId) <==> topic@.len() > 0 && !id_fits(
            old(store)@.log,
            id,
        ),
        r is Err ==> final(store)@.log == old(store)@.log && final(sink)@ == old(sink)@,
{
    proof {
        lemma_encode_utf8_empty(content@);
    }
    let bytes = content.as_str().as_bytes_vec();
    let hash = if bytes.len() > 0 {
        Some(store.cas_insert(bytes))
    } else {
        None
    };
    let frame = Frame { id, context_id: SYSTEM_CONTEXT, topic, hash, meta, ttl: None };
    match store.append(frame) {
        Ok(appended) => {
            sink.emit(appended.clone());
            Ok(id_to_text(id))
        },
        Err(AppendError::EmptyTopic) => Err(AppendEventError::EmptyTopic),
        Err(AppendError::IdNotIncreasing) => Err(AppendEventError::StaleId),
    }
}

/// Appends one event under a freshly generated id. The id comes from the
/// process-wide generator, so success is promised only as far as the id
/// is: on an empty log every id fits, so there success is owed; an empty
/// topic is rejected as such; and on success the log gained exactly one
/// frame carrying this event, pushed to the subscriber, whose id's
/// canonical text is returned.
pub fn append_event(
    store: &mut Store,
    sink: &mut Sink,
    topic: String,
    content: String,
    meta: Option<serde_json::Value>,
) -> (r: Result<String, AppendEventError>)
    requires
        old(store).wf(),
    ensures
        final(store).wf(),
        final(store)@.cas == cas_after_event(old(store)@.cas, content@),
        (r matches Err(e) && e == AppendEventError::EmptyTopic) <==> topic@.len() == 0,
        topic@.len() > 0 && old(store)@.log.len() == 0 ==> r is Ok,
        r matches Ok(t) ==> (topic@.len() > 0 && final(store)@.log.len() == old(store)@.log.len()
            + 1 && final(store)@.log.drop_last() == old(store)@.log && event_frame(
            final(store)@.log.last(),
            final(store)@.log.last().id,
            topic@,
            content@,
            meta,
        ) && id_fits(old(store)@.log, final(store)@.log.last().id) && t@ == id_text_of(
            final(store)@.log.last().id,
        ) && final(sink)@ == old(sink)@.push(final(store)@.log.last())),
        r is Err ==> final(store)@.log == old(store)@.log && final(sink)@ == old(sink)@,
{
    let id = generate_id();
    append_event_with_id(store, sink, id, topic, content, meta)
}

/// Reads content back by its hash string: the hash must parse, the entry
/// must exist, and its bytes must decode as UTF-8; each failure is its
/// own error kind, and on success the decoded text is returned.
pub fn read_content(store: &Store, hash: &String) -> (r: Result<String, ContentError>)
    requires
        store.wf(),
    ensures
        (r matches Err(e) && e == ContentError::MalformedHash) <==> parsed_hash(hash@) is None,
        (r matches Err(e) && e == ContentError::MissingContent) <==> (parsed_hash(hash@) matches
            Some(k) && !store@.cas.dom().contains(k)),
        (r matches Err(e) && e == ContentError::InvalidEncoding) <==> (parsed_hash(hash@) matches
            Some(k) && store@.cas.dom().contains(k) && !valid_utf8(store@.cas[k])),
        parsed_hash(hash@) matches Some(k) ==> ((store@.cas.dom().contains(k) && valid_utf8(
            store@.cas[k],
        )) ==> (r matches Ok(s) && s@ == decode_utf8(store@.cas[k]))),
{
    match parse_hash(hash) {
        None => Err(ContentError::MalformedHash),
        Some(key) => match store.cas_read(&key) {
            None => Err(ContentError::MissingContent),
            Some(bytes) => match bytes_to_string(bytes) {
                None => Err(ContentError::InvalidEncoding),
                Some(s) => Ok(s),
            },
        },
    }
}

/// The line the diagnostic passthrough prints for a message of the given
/// level.
pub open spec fn log_line(level: Seq<char>, message: Seq<char>) -> Seq<char> {
    if level == "error"@ {
        "[FRONTEND ERROR] "@ + message
    } else if level == "warn"@ {
        "[FRONTEND WARN] "@ + message
    } else {
        "[FRONTEND LOG] "@ + message
    }
}

/// Errors and warnings go to the diagnostic stream, everything else to the
/// regular one.
pub open spec fn log_to_stderr(level: Seq<char>) -> bool {
    level == "error"@ || level == "warn"@
}

/// Formats one diagnostic line for the given level and says whether it
/// belongs on the diagnostic stream; the caller does the printing.
pub fn format_log_message(level: &String, message: &String) -> (r: (String, bool))
    ensures
        r.0@ == log_line(level@, message@),
        r.1 == log_to_stderr(level@),
{
    let error_level = "error".to_owned();
    let warn_level = "warn".to_owned();
    if *level == error_level {
        let mut out = "[FRONTEND ERROR] ".to_owned();
        out.append(message.as_str());
        (out, true)
    } else if *level == warn_level {
        let mut out = "[FRONTEND WARN] ".to_owned();
        out.append(message.as_str());
        (out, true)
    } else {
        let mut out = "[FRONTEND LOG] ".to_owned();
        out.append(message.as_str());
        (out, false)
    }
}

/// Round trip: inserting any content and reading it back through the
/// returned hash yields the content again. The premise restates what
/// `cas_insert` ensures of every hash it returns: the digest's own text
/// is canonical, so the hash string parses back to the stored key.
pub proof fn lemma_content_round_trip(m: Map<Seq<char>, Seq<u8>>, content: Seq<char>)
    requires
        parsed_hash(digest_of(encode_utf8(content))) == Some(digest_of(encode_utf8(content))),
    ensures
        ({
            let k = digest_of(encode_utf8(content));
            let m1 = cas_after_insert(m, encode_utf8(content));
            &&& parsed_hash(k) == Some(k)
            &&& m1.dom().contains(k)
            &&& valid_utf8(m1[k])
            &&& decode_utf8(m1[k]) == content
        }),
{
    broadcast use vstd::utf8::encode_utf8_valid_utf8, vstd::utf8::encode_utf8_decode_utf8;

}

/// The id a successful append returns identifies exactly one frame of the
/// log — the newly appended one — both as a number and through its
/// canonical text, the string the command hands back; that frame's hash
/// is `None` iff the content was empty, and otherwise the hash is
/// canonical and keys the blob store to exactly the content's encoding,
/// which decodes back to the content.
pub proof fn lemma_appended_event_identified(
    log0: Seq<Frame>,
    log1: Seq<Frame>,
    cas0: Map<Seq<char>, Seq<u8>>,
    cas1: Map<Seq<char>, Seq<u8>>,
    id: u128,
    topic: Seq<char>,
    content: Seq<char>,
    meta: Option<serde_json::Value>,
)
    requires
        ids_increasing(log1),
        log1.len() == log0.len() + 1,
        log1.drop_last() == log0,
        event_frame(log1.last(), id, topic, content, meta),
        cas1 == cas_after_event(cas0, content),
    ensures
        forall|j: int| 0 <= j < log1.len() && log1[j].id == id ==> j == log1.len() - 1,
        forall|j: int|
            0 <= j < log1.len() && id_text_of(log1[j].id) == id_text_of(id) ==> j == log1.len()
                - 1,
        (log1.last().hash is None) <==> content.len() == 0,
        content.len() > 0 ==> (log1.last().hash matches Some(h) && cas1.dom().contains(h@)
            && cas1[h@] == encode_utf8(content) && valid_utf8(cas1[h@]) && decode_utf8(cas1[h@])
            == content && parsed_hash(h@) == Some(h@)),
{
    broadcast use vstd::utf8::encode_utf8_valid_utf8, vstd::utf8::encode_utf8_decode_utf8;

    if content.len() > 0 {
        lemma_encode_utf8_empty(content);
    }
    assert forall|j: int| 0 <= j < log1.len() && log1[j].id == id implies j == log1.len()
        - 1 by {
        if j < log1.len() - 1 {
            assert(log1[j].id < log1[log1.len() - 1].id);
        }
    }
    assert forall|j: int|
        0 <= j < log1.len() && id_text_of(log1[j].id) == id_text_of(id) implies j == log1.len()
        - 1 by {
        lemma_id_text_injective(log1[j].id, id);
    }
}

} // verus!
