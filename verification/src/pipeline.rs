//! The ingestion pipeline, as a state machine.
//!
//! One invocation runs fetch, extraction, chunking, language detection,
//! checksum and persistence for a single entry.  The host calls (fetch,
//! host-side chunking, the two persistence calls) cannot be made from
//! here, so each transition returns the [`Action`] the driver must
//! perform next; the driver feeds the host's reply back in as the next
//! event.  Every decision between two host calls is taken here and
//! verified; a failure at any step short-circuits to a terminal
//! [`Phase::Failed`] whose action reports the error, so no later
//! persistence action is ever emitted.

use vstd::prelude::*;
use crate::arena::Arena;
use crate::checksum::{checksum_of, spec_checksum};
use crate::codec::{
    decode_chunk_result,
    decode_entry,
    spec_decode_chunk_result,
    spec_decode_entry,
    string_from_utf8,
    Entry,
    EntryType,
    EntryV,
};
use crate::errors::{encode_error, ErrorKind, PipelineError};
use crate::lang::{detect_language, detected_lang_code, spec_language_of, spec_pg_name, Language};
use crate::text::{
    chunk_input,
    derive_name,
    display_name,
    spec_chunk_input,
    spec_derive_name,
    spec_display_name,
    spec_strip_markdown,
    strip_markdown,
    NameRule,
};
use vstd::string::StrSliceExecFns;
use vstd::utf8::{decode_utf8, valid_utf8};

verus! {

/// The derived representation of an entry's document: normalized
/// markdown and the plain text stripped of markup.
#[derive(Debug)]
pub struct Content {
    pub markdown: String,
    pub plain_text: String,
}

/// The schema version tag stamped on every chunk record.
pub const MINIMUM_VERSION: i32 = 1;

/// Which host chunker splits the text.
#[derive(Clone, Copy, PartialEq, Eq, Structural, Debug)]
pub enum ChunkerKind {
    /// Overlapping windows, keeping context between neighbours.
    Overlap,
    /// Sentence-bounded segments.
    BySentence,
}

/// How a terminal failure leaves the guest: reported to the host as a
/// non-zero result, or only logged while the invocation still returns
/// success, so the host loop is never tripped.
#[derive(Clone, Copy, PartialEq, Eq, Structural, Debug)]
pub enum ErrorPolicy {
    Propagate,
    LogOnly,
}

/// The per-variant policy choices, resolved once at startup: which
/// chunker is used, how failures are reported, and how the display name
/// is derived from the entry's own name.
#[derive(Clone, Copy, PartialEq, Eq, Structural, Debug)]
pub struct PipelineConfig {
    pub chunker: ChunkerKind,
    pub error_policy: ErrorPolicy,
    pub name_rule: NameRule,
}

impl PipelineConfig {
    /// The standard deployment: overlap chunking, failures propagated,
    /// names used as they arrived.
    pub fn standard() -> (r: PipelineConfig)
        ensures
            r == (PipelineConfig {
                chunker: ChunkerKind::Overlap,
                error_policy: ErrorPolicy::Propagate,
                name_rule: NameRule::Full,
            }),
    {
        PipelineConfig {
            chunker: ChunkerKind::Overlap,
            error_policy: ErrorPolicy::Propagate,
            name_rule: NameRule::Full,
        }
    }
}

/// One chunk ready for persistence.
#[derive(Debug)]
pub struct ChunkRecord {
    pub entry_id: String,
    pub index: i32,
    pub minimum_version: i32,
    pub content: String,
    pub language: String,
}

/// The mathematical value of a chunk record.
pub struct ChunkRecordV {
    pub entry_id: Seq<char>,
    pub index: int,
    pub minimum_version: int,
    pub content: Seq<char>,
    pub language: Seq<char>,
}

impl View for ChunkRecord {
    type V = ChunkRecordV;

    open spec fn view(&self) -> ChunkRecordV {
        ChunkRecordV {
            entry_id: self.entry_id@,
            index: self.index as int,
            minimum_version: self.minimum_version as int,
            content: self.content@,
            language: self.language@,
        }
    }
}

/// The update requested for the entry row: the checksum and derived
/// content, and a derived name only when the entry arrived without one.
#[derive(Debug)]
pub struct UpdateRequest {
    pub id: String,
    pub name: Option<String>,
    pub content: Option<Content>,
    pub checksum: Option<String>,
}

/// What the driver must do next.
#[derive(Debug)]
pub enum Action {
    /// Fetch the entry's document from its URL.
    Fetch(String),
    /// Have the host convert an HTML body to markdown.
    ConvertHtml(String),
    /// Have the named host chunker split the given text.
    Chunk(ChunkerKind, String),
    /// Commit the entry update.
    PersistUpdate(UpdateRequest),
    /// Commit the chunk set.
    PersistChunks(Vec<ChunkRecord>),
    /// Report success to the host.
    Succeed,
    /// Report the failure to the host.
    Fail(PipelineError),
}

/// Where the pipeline stands; the waiting phases name the host reply the
/// machine expects next.
#[derive(Debug)]
pub enum Phase {
    Fetching,
    AwaitingHtml,
    Chunking,
    Persisting,
    CreatingChunks,
    Done,
    Failed,
}

/// The pipeline state for one entry.
#[derive(Debug)]
pub struct Pipeline {
    pub entry: Entry,
    pub config: PipelineConfig,
    pub name: String,
    pub content: Option<Content>,
    pub chunks: Option<Vec<String>>,
    pub language: Option<Language>,
    pub phase: Phase,
}

/// The derived markdown, where content has been derived.
pub open spec fn spec_content_md(p: &Pipeline) -> Seq<char> {
    match p.content {
        Some(c) => c.markdown@,
        None => Seq::empty(),
    }
}

/// The derived plain text, where content has been derived.
pub open spec fn spec_content_plain(p: &Pipeline) -> Seq<char> {
    match p.content {
        Some(c) => c.plain_text@,
        None => Seq::empty(),
    }
}

/// The decoded chunk strings, where the chunk reply has arrived.
pub open spec fn spec_chunks_of(p: &Pipeline) -> Seq<Seq<char>> {
    match p.chunks {
        Some(v) => v.deep_view(),
        None => Seq::empty(),
    }
}

impl Pipeline {
    /// What each phase has already derived.
    pub open spec fn wf(&self) -> bool {
        match self.phase {
            Phase::Chunking => self.content is Some,
            Phase::Persisting => self.content is Some && self.chunks is Some && self.language
                is Some,
            Phase::CreatingChunks => self.chunks is Some && self.language is Some,
            _ => true,
        }
    }
}

/// A fetch status the pipeline accepts: a 2xx code.
pub open spec fn spec_status_ok(status: u16) -> bool {
    200 <= status < 300
}

/// The pair has reached the terminal failure of the given kind: the
/// machine is `Failed` and the action reports the error, so no fetch,
/// chunking or persistence action is emitted.
pub open spec fn spec_failed(r: (Pipeline, Action), kind: ErrorKind) -> bool {
    &&& r.0.phase is Failed
    &&& r.0.wf()
    &&& r.1 matches Action::Fail(e) && e.kind == kind
}

/// What type-specific extraction derives from a body: markdown and plain
/// text for the types this pipeline handles, nothing for a type it must
/// refuse.  Plain text passes through unchanged; markdown keeps its own
/// text and derives the plain text by stripping markup, the empty
/// document included.
pub open spec fn spec_extract(etype: EntryType, body: Seq<char>) -> Option<(Seq<char>, Seq<char>)> {
    match etype {
        EntryType::Markdown => Some((body, spec_strip_markdown(body))),
        EntryType::PlainText => Some((body, body)),
        _ => None,
    }
}

/// The pair is waiting on the host chunker: content has been derived as
/// given and the chunk request joins the display name with the plain
/// text.
pub open spec fn spec_chunk_ready(
    r: (Pipeline, Action),
    e: EntryV,
    cfg: PipelineConfig,
    dname: Seq<char>,
    md: Seq<char>,
    plain: Seq<char>,
) -> bool {
    &&& r.0.phase is Chunking
    &&& r.0.wf()
    &&& r.0.entry@ == e
    &&& r.0.config == cfg
    &&& r.0.name@ == dname
    &&& spec_content_md(&r.0) == md
    &&& spec_content_plain(&r.0) == plain
    &&& r.1 matches Action::Chunk(k, t) && k == cfg.chunker && t@ == spec_chunk_input(dname, plain)
}

/// Where a body has arrived, the machine either asks the host to convert
/// HTML, stands ready to chunk the extracted content, or has failed on a
/// type it does not handle or a body it cannot accept.
pub open spec fn spec_after_body(
    r: (Pipeline, Action),
    e: EntryV,
    cfg: PipelineConfig,
    dname: Seq<char>,
    body: Seq<char>,
) -> bool {
    match e.etype {
        EntryType::Html => {
            &&& r.0.phase is AwaitingHtml
            &&& r.0.wf()
            &&& r.0.entry@ == e
            &&& r.0.config == cfg
            &&& r.0.name@ == dname
            &&& r.1 matches Action::ConvertHtml(b) && b@ == body
        },
        EntryType::Markdown => spec_chunk_ready(r, e, cfg, dname, body, spec_strip_markdown(body)),
        EntryType::PlainText => spec_chunk_ready(r, e, cfg, dname, body, body),
        _ => spec_failed(r, ErrorKind::Unsupported),
    }
}

/// The pair is waiting on the entry-update acknowledgement: the chunk
/// strings are stored, the language of the plain text is resolved, and
/// the update request carries the entry's id, the checksum of the
/// markdown, the derived content, and the derived name exactly when the
/// entry arrived with an empty name.
pub open spec fn spec_persist_ready(r: (Pipeline, Action), pre: Pipeline, cs: Seq<Seq<char>>) -> bool {
    &&& r.0.phase is Persisting
    &&& r.0.wf()
    &&& r.0.entry@ == pre.entry@
    &&& r.0.config == pre.config
    &&& r.0.name@ == pre.name@
    &&& spec_content_md(&r.0) == spec_content_md(&pre)
    &&& spec_content_plain(&r.0) == spec_content_plain(&pre)
    &&& spec_chunks_of(&r.0) == cs
    &&& r.0.language == Some(spec_language_of(detected_lang_code(spec_content_plain(&pre))))
    &&& r.1 matches Action::PersistUpdate(u) && {
        &&& u.id@ == pre.entry@.id
        &&& (pre.entry@.name.len() == 0 ==> (u.name matches Some(n) && n@ == pre.name@))
        &&& (pre.entry@.name.len() > 0 ==> u.name is None)
        &&& u.content matches Some(c) && c.markdown@ == spec_content_md(&pre) && c.plain_text@
            == spec_content_plain(&pre)
        &&& u.checksum matches Some(ck) && ck@ == spec_checksum(spec_content_md(&pre))
    }
}

impl Pipeline {
    /// Builds the terminal failure of the given kind.
    fn failed_pair(entry: Entry, config: PipelineConfig, name: String, kind: ErrorKind, msg: &str) -> (r: (
        Pipeline,
        Action,
    ))
        ensures
            spec_failed(r, kind),
            r.0.entry@ == entry@,
            r.0.config == config,
            r.0.name@ == name@,
    {
        let m = Pipeline {
            entry,
            config,
            name,
            content: None,
            chunks: None,
            language: None,
            phase: Phase::Failed,
        };
        (m, Action::Fail(PipelineError { kind, message: msg.to_owned() }))
    }

    /// Moves to the terminal failure of the given kind.
    fn fail(self, kind: ErrorKind, msg: &str) -> (r: (Pipeline, Action))
        ensures
            spec_failed(r, kind),
            r.0.entry@ == self.entry@,
            r.0.config == self.config,
            r.0.name@ == self.name@,
    {
        Self::failed_pair(self.entry, self.config, self.name, kind, msg)
    }

    /// Derives content from a body of the entry's type and stands ready
    /// to chunk it, or fails on a type this pipeline does not handle.
    fn extract_body(self, body: String) -> (r: (Pipeline, Action))
        ensures
            spec_after_body(r, self.entry@, self.config, self.name@, body@),
    {
        match self.entry.etype {
            EntryType::Html => {
                let m = Pipeline {
                    entry: self.entry,
                    config: self.config,
                    name: self.name,
                    content: None,
                    chunks: None,
                    language: None,
                    phase: Phase::AwaitingHtml,
                };
                (m, Action::ConvertHtml(body))
            },
            EntryType::Markdown => {
                let plain = strip_markdown(body.as_str());
                self.to_chunking(body, plain)
            },
            EntryType::PlainText => {
                let plain = body.clone();
                self.to_chunking(body, plain)
            },
            _ => self.fail(ErrorKind::Unsupported, "entry type is not handled"),
        }
    }

    /// Stores derived content and asks the host to chunk it.
    fn to_chunking(self, markdown: String, plain: String) -> (r: (Pipeline, Action))
        ensures
            spec_chunk_ready(r, self.entry@, self.config, self.name@, markdown@, plain@),
    {
        let text = chunk_input(self.name.as_str(), plain.as_str());
        let kind = self.config.chunker;
        let m = Pipeline {
            entry: self.entry,
            config: self.config,
            name: self.name,
            content: Some(Content { markdown, plain_text: plain }),
            chunks: None,
            language: None,
            phase: Phase::Chunking,
        };
        (m, Action::Chunk(kind, text))
    }

    /// Begins the pipeline for a decoded entry: an entry that arrived
    /// with inline content goes straight to extraction, any other entry
    /// is fetched from its URL first.
    pub fn start(entry: Entry, config: PipelineConfig) -> (r: (Pipeline, Action))
        ensures
            spec_started(r, entry@, config),
    {
        let derived = derive_name(config.name_rule, entry.name.as_str());
        let name = display_name(derived.as_str(), entry.url.as_str());
        let url = entry.url.clone();
        let inline: Option<String> = match &entry.content {
            Some(c) => Some(c.clone()),
            None => None,
        };
        let m = Pipeline {
            entry,
            config,
            name,
            content: None,
            chunks: None,
            language: None,
            phase: Phase::Fetching,
        };
        match inline {
            Some(body) => m.extract_body(body),
            None => (m, Action::Fetch(url)),
        }
    }

    /// Takes the fetch reply.  A status outside the 2xx range is a
    /// terminal network failure; a body that is not UTF-8 cannot be
    /// processed; otherwise extraction proceeds on the body.
    pub fn on_fetch_response(self, status: u16, body: Vec<u8>) -> (r: (Pipeline, Action))
        requires
            self.phase is Fetching,
        ensures
            !spec_status_ok(status) ==> spec_failed(r, ErrorKind::Network),
            spec_status_ok(status) && !valid_utf8(body@) ==> spec_failed(r, ErrorKind::Plugin),
            spec_status_ok(status) && valid_utf8(body@) ==> spec_after_body(
                r,
                self.entry@,
                self.config,
                self.name@,
                decode_utf8(body@),
            ),
    {
        if status < 200 || status >= 300 {
            return self.fail(ErrorKind::Network, "fetch returned a non-success status");
        }
        match string_from_utf8(body) {
            None => self.fail(ErrorKind::Plugin, "fetched body is not valid text"),
            Some(text) => self.extract_body(text),
        }
    }

    /// Takes the host's HTML conversion reply.  No reply is a terminal
    /// extraction failure; a converted document, the empty one included,
    /// goes on to chunking.
    pub fn on_html_converted(self, markdown: Option<String>) -> (r: (Pipeline, Action))
        requires
            self.phase is AwaitingHtml,
        ensures
            match markdown {
                None => spec_failed(r, ErrorKind::Extraction),
                Some(md) => spec_chunk_ready(
                    r,
                    self.entry@,
                    self.config,
                    self.name@,
                    md@,
                    spec_strip_markdown(md@),
                ),
            },
    {
        match markdown {
            None => self.fail(ErrorKind::Extraction, "document conversion failed"),
            Some(md) => {
                let plain = strip_markdown(md.as_str());
                self.to_chunking(md, plain)
            },
        }
    }

    /// Takes the chunker's reply, detects the language of the plain
    /// text, computes the checksum of the markdown, and asks for the
    /// entry update.  The derived name is sent only when the entry
    /// arrived with an empty name.
    pub fn on_chunk_reply(self, payload: Option<Vec<u8>>) -> (r: (Pipeline, Action))
        requires
            self.phase is Chunking,
            self.wf(),
        ensures
            match payload {
                None => spec_failed(r, ErrorKind::Plugin),
                Some(b) => match spec_decode_chunk_result(b@) {
                    None => spec_failed(r, ErrorKind::Decode),
                    Some(cs) => spec_persist_ready(r, self, cs),
                },
            },
    {
        let Pipeline { entry, config, name, content, chunks: _pc, language: _pl, phase: _pp } =
            self;
        let bytes = match payload {
            None => {
                return Self::failed_pair(
                    entry,
                    config,
                    name,
                    ErrorKind::Plugin,
                    "chunking call failed",
                );
            },
            Some(b) => b,
        };
        let chunks = match decode_chunk_result(bytes.as_slice()) {
            None => {
                return Self::failed_pair(
                    entry,
                    config,
                    name,
                    ErrorKind::Decode,
                    "chunk reply envelope is malformed",
                );
            },
            Some(cs) => cs,
        };
        let content = match content {
            Some(c) => c,
            None => {
                // ruled out by wf: the chunking phase always carries content
                proof {
                    assert(false);
                }
                return Self::failed_pair(
                    entry,
                    config,
                    name,
                    ErrorKind::Plugin,
                    "no content derived",
                );
            },
        };
        let language = detect_language(content.plain_text.as_str());
        let ck = checksum_of(content.markdown.as_str());
        let name_update: Option<String> = if entry.name.as_str().unicode_len() == 0 {
            Some(name.clone())
        } else {
            None
        };
        let request = UpdateRequest {
            id: entry.id.clone(),
            name: name_update,
            content: Some(
                Content {
                    markdown: content.markdown.clone(),
                    plain_text: content.plain_text.clone(),
                },
            ),
            checksum: Some(ck),
        };
        let m = Pipeline {
            entry,
            config,
            name,
            content: Some(content),
            chunks: Some(chunks),
            language: Some(language),
            phase: Phase::Persisting,
        };
        (m, Action::PersistUpdate(request))
    }

    /// Takes the entry-update acknowledgement and asks for the chunk
    /// set to be created: records numbered `0..N` in chunk order, each
    /// carrying the entry id, the detected language and the fixed
    /// minimum version.
    pub fn on_update_ack(self, ok: bool) -> (r: (Pipeline, Action))
        requires
            self.phase is Persisting,
            self.wf(),
        ensures
            !ok ==> spec_failed(r, ErrorKind::Persistence),
            ok && spec_chunks_of(&self).len() > i32::MAX ==> spec_failed(
                r,
                ErrorKind::ChunkAssembly,
            ),
            ok && spec_chunks_of(&self).len() <= i32::MAX ==> {
                &&& r.0.phase is CreatingChunks
                &&& r.0.wf()
                &&& r.0.entry@ == self.entry@
                &&& r.0.config == self.config
                &&& r.0.name@ == self.name@
                &&& spec_chunks_of(&r.0) == spec_chunks_of(&self)
                &&& r.0.language == self.language
                &&& r.1 matches Action::PersistChunks(rs) && rs@.len() == spec_chunks_of(
                    &self,
                ).len() && forall|i: int|
                    0 <= i < rs@.len() ==> (#[trigger] rs@[i])@ == spec_record_at(
                        self.entry@.id,
                        spec_chunks_of(&self),
                        spec_lang_of(&self),
                        i,
                    )
            },
    {
        let Pipeline { entry, config, name, content, chunks, language, phase: _pp } = self;
        if !ok {
            return Self::failed_pair(
                entry,
                config,
                name,
                ErrorKind::Persistence,
                "entry update failed",
            );
        }
        let chunk_list = match chunks {
            Some(v) => v,
            None => {
                // ruled out by wf: the persisting phase always carries chunks
                proof {
                    assert(false);
                }
                return Self::failed_pair(
                    entry,
                    config,
                    name,
                    ErrorKind::Plugin,
                    "no chunks decoded",
                );
            },
        };
        let lang = match language {
            Some(l) => l,
            None => {
                // ruled out by wf: the persisting phase always carries a language
                proof {
                    assert(false);
                }
                return Self::failed_pair(
                    entry,
                    config,
                    name,
                    ErrorKind::Plugin,
                    "no language resolved",
                );
            },
        };
        if chunk_list.len() > i32::MAX as usize {
            return Self::failed_pair(
                entry,
                config,
                name,
                ErrorKind::ChunkAssembly,
                "chunk index space exhausted",
            );
        }
        let records = make_chunk_records(&entry.id, &chunk_list, lang);
        let m = Pipeline {
            entry,
            config,
            name,
            content,
            chunks: Some(chunk_list),
            language: Some(lang),
            phase: Phase::CreatingChunks,
        };
        (m, Action::PersistChunks(records))
    }

    /// Takes the chunk-creation acknowledgement; on success the pipeline
    /// is done and reports the success code.
    pub fn on_chunks_ack(self, ok: bool) -> (r: (Pipeline, Action))
        requires
            self.phase is CreatingChunks,
            self.wf(),
        ensures
            !ok ==> spec_failed(r, ErrorKind::Persistence),
            ok ==> {
                &&& r.0.phase is Done
                &&& r.0.wf()
                &&& r.0.entry@ == self.entry@
                &&& r.0.config == self.config
                &&& r.0.name@ == self.name@
                &&& r.1 is Succeed
            },
    {
        let Pipeline { entry, config, name, content, chunks, language, phase: _pp } = self;
        if !ok {
            return Self::failed_pair(
                entry,
                config,
                name,
                ErrorKind::Persistence,
                "chunk creation failed",
            );
        }
        let m = Pipeline { entry, config, name, content, chunks, language, phase: Phase::Done };
        (m, Action::Succeed)
    }
}

/// The resolved language, where detection has run.
pub open spec fn spec_lang_of(p: &Pipeline) -> Language {
    match p.language {
        Some(l) => l,
        None => Language::Simple,
    }
}

/// The record created for chunk `i` of a chunk list.
pub open spec fn spec_record_at(
    id: Seq<char>,
    cs: Seq<Seq<char>>,
    lang: Language,
    i: int,
) -> ChunkRecordV {
    ChunkRecordV {
        entry_id: id,
        index: i,
        minimum_version: 1,
        content: cs[i],
        language: spec_pg_name(lang),
    }
}

/// Builds the chunk records of one run: record `i` holds chunk `i`.
pub fn make_chunk_records(entry_id: &String, chunks: &Vec<String>, language: Language) -> (r: Vec<
    ChunkRecord,
>)
    requires
        chunks@.len() <= i32::MAX,
    ensures
        r@.len() == chunks@.len(),
        forall|i: int|
            0 <= i < r@.len() ==> (#[trigger] r@[i])@ == spec_record_at(
                entry_id@,
                chunks.deep_view(),
                language,
                i,
            ),
{
    let mut out: Vec<ChunkRecord> = Vec::new();
    let mut i: usize = 0;
    while i < chunks.len()
        invariant
            i <= chunks@.len(),
            chunks@.len() <= i32::MAX,
            out@.len() == i,
            forall|k: int|
                0 <= k < i ==> (#[trigger] out@[k])@ == spec_record_at(
                    entry_id@,
                    chunks.deep_view(),
                    language,
                    k,
                ),
        decreases chunks@.len() - i,
    {
        out.push(
            ChunkRecord {
                entry_id: entry_id.clone(),
                index: i as i32,
                minimum_version: MINIMUM_VERSION,
                content: chunks[i].clone(),
                language: language.pg_name(),
            },
        );
        i = i + 1;
    }
    out
}

/// Chunk indices of any successful run form the dense sequence `0..N`,
/// with no gaps and no duplicates, where `N` is the number of chunks the
/// host returned.
pub proof fn lemma_chunk_indices_dense(
    rs: Seq<ChunkRecordV>,
    id: Seq<char>,
    cs: Seq<Seq<char>>,
    lang: Language,
)
    requires
        rs.len() == cs.len(),
        forall|i: int| 0 <= i < rs.len() ==> #[trigger] rs[i] == spec_record_at(id, cs, lang, i),
    ensures
        forall|i: int| 0 <= i < rs.len() ==> (#[trigger] rs[i]).index == i,
        forall|i: int, j: int|
            0 <= i < rs.len() && 0 <= j < rs.len() && i != j ==> (#[trigger] rs[i]).index != (
            #[trigger] rs[j]).index,
{
}

/// Idempotence: the pipeline's derivations are functions of the entry,
/// the fetched body and the host's chunk reply alone, so a re-run over
/// the same inputs derives the same display name, the same content, the
/// same checksum and the same chunk records.
pub proof fn lemma_rerun_stable(
    e1: EntryV,
    e2: EntryV,
    body1: Seq<char>,
    body2: Seq<char>,
    cs1: Seq<Seq<char>>,
    cs2: Seq<Seq<char>>,
    lang1: Language,
    lang2: Language,
    i: int,
)
    requires
        e1 == e2,
        body1 == body2,
        cs1 == cs2,
        lang1 == lang2,
    ensures
        spec_display_name(e1.name, e1.url) == spec_display_name(e2.name, e2.url),
        spec_extract(e1.etype, body1) == spec_extract(e2.etype, body2),
        spec_checksum(body1) == spec_checksum(body2),
        spec_language_of(detected_lang_code(body1)) == spec_language_of(detected_lang_code(body2)),
        spec_record_at(e1.id, cs1, lang1, i) == spec_record_at(e2.id, cs2, lang2, i),
{
}

/// The display name the pipeline resolves at startup: the configured
/// derivation rule applied to the entry's name, with the URL standing in
/// when what remains is empty or whitespace-only.
pub open spec fn spec_resolved_name(e: EntryV, cfg: PipelineConfig) -> Seq<char> {
    spec_display_name(spec_derive_name(cfg.name_rule, e.name), e.url)
}

/// The pair has just started for the given entry: an entry with inline
/// content stands past extraction, any other is being fetched.
pub open spec fn spec_started(r: (Pipeline, Action), e: EntryV, cfg: PipelineConfig) -> bool {
    match e.content {
        None => {
            &&& r.0.phase is Fetching
            &&& r.0.wf()
            &&& r.0.entry@ == e
            &&& r.0.config == cfg
            &&& r.0.name@ == spec_resolved_name(e, cfg)
            &&& r.1 matches Action::Fetch(u) && u@ == e.url
        },
        Some(b) => spec_after_body(r, e, cfg, spec_resolved_name(e, cfg), b),
    }
}

/// The guest entry point's first step: decodes the entry envelope at the
/// given bytes and starts the pipeline, or reports the malformed
/// envelope.
pub fn on_create_begin(bytes: &[u8], config: PipelineConfig) -> (r: Result<
    (Pipeline, Action),
    PipelineError,
>)
    ensures
        match r {
            Ok(pa) => spec_decode_entry(bytes@) matches Some(ev) && spec_started(pa, ev, config),
            Err(e) => spec_decode_entry(bytes@) is None && e.kind == ErrorKind::Decode,
        },
{
    match decode_entry(bytes) {
        None => Err(
            PipelineError {
                kind: ErrorKind::Decode,
                message: "entry envelope is malformed".to_owned(),
            },
        ),
        Some(entry) => Ok(Pipeline::start(entry, config)),
    }
}

/// The value the guest entry point returns for a terminal action: zero
/// for success; for a failure under the propagating policy, the packed
/// location of an error packet staged in the arena — whenever the packet
/// fits the remaining address space the host can decode the kind and the
/// message from the buffer the value points at, and the value is never
/// zero; for a failure under the log-only policy, zero again, so the
/// host loop is not tripped and the diagnostic is left to the log.  A
/// non-terminal action yields no value.
pub fn completion_value(a: &mut Arena, action: &Action, policy: ErrorPolicy) -> (r: Option<u64>)
    requires
        old(a).wf(),
    ensures
        final(a).wf(),
        match action {
            Action::Succeed => r == Some(0u64),
            Action::Fail(e) => if policy is LogOnly {
                r == Some(0u64)
            } else {
                r matches Some(v) && crate::errors::spec_error_staged(
                    old(a),
                    final(a),
                    e.kind,
                    e.message@,
                    v,
                )
            },
            _ => r is None,
        },
{
    match action {
        Action::Succeed => Some(0),
        Action::Fail(e) => match policy {
            ErrorPolicy::LogOnly => Some(0),
            ErrorPolicy::Propagate => Some(encode_error(a, e)),
        },
        _ => None,
    }
}

} // verus!
