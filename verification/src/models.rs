//! Typed models for the API's resources, hydrated defensively from [`Json`]:
//! a missing, `null` or unexpectedly typed field degrades to a default.
//! [`Job`] keeps the whole decoded response in [`Job::raw`].

use vstd::prelude::*;

use crate::cloud::{output_target_from, OutputTarget};
use crate::data::{
    list, object, opt_chars, opt_i64, opt_string, spec_list, spec_object, spec_opt_i64,
    spec_opt_string, spec_string, string,
};
use crate::enums::job_status::{self, spec_terminal};
use crate::json::{member, owned, view_entries, view_items, Json, JsonV};
use crate::text::str_eq;

verus! {

/// A job's status: a `code` (see [`job_status`]) and optional `info`.
pub struct Status {
    pub code: String,
    pub info: Option<String>,
}

/// `s` is the status read from `v`.
pub open spec fn status_from(s: Status, v: JsonV) -> bool {
    &&& s.code@ == spec_string(member(v, "code"@), ""@)
    &&& opt_chars(s.info) == spec_opt_string(member(v, "info"@))
}

impl Status {
    /// Read a status object.
    pub fn from_value(v: &Json) -> (r: Status)
        ensures
            status_from(r, v@),
    {
        Status { code: string(v.get("code"), ""), info: opt_string(v.get("info")) }
    }
}

/// One conversion within a job.
pub struct Conversion {
    pub target: String,
    pub id: Option<String>,
    pub category: Option<String>,
    pub options: Vec<(String, Json)>,
    pub metadata: Vec<(String, Json)>,
    /// Cloud delivery targets of this conversion's output (credentials never
    /// surfaced).
    pub output_target: Vec<OutputTarget>,
}

/// `c` is the conversion read from `v`.
pub open spec fn conversion_from(c: Conversion, v: JsonV) -> bool {
    &&& c.target@ == spec_string(member(v, "target"@), ""@)
    &&& opt_chars(c.id) == spec_opt_string(member(v, "id"@))
    &&& opt_chars(c.category) == spec_opt_string(member(v, "category"@))
    &&& view_entries(c.options@) == spec_object(member(v, "options"@))
    &&& view_entries(c.metadata@) == spec_object(member(v, "metadata"@))
    &&& c.output_target@.len() == spec_list(member(v, "output_target"@)).len()
    &&& forall|i: int|
        0 <= i < c.output_target@.len() ==> output_target_from(
            #[trigger] c.output_target@[i],
            spec_list(member(v, "output_target"@))[i],
        )
}

impl Conversion {
    /// Read a conversion object.
    pub fn from_value(v: &Json) -> (r: Conversion)
        ensures
            conversion_from(r, v@),
    {
        let items = list(v.get("output_target"));
        let mut targets: Vec<OutputTarget> = Vec::new();
        let mut i: usize = 0;
        while i < items.len()
            invariant
                i <= items@.len(),
                targets@.len() == i,
                forall|k: int|
                    0 <= k < i ==> output_target_from(#[trigger] targets@[k], view_items(items@)[k]),
            decreases items@.len() - i,
        {
            targets.push(OutputTarget::from_value(&items[i]));
            i = i + 1;
        }
        Conversion {
            target: string(v.get("target"), ""),
            id: opt_string(v.get("id")),
            category: opt_string(v.get("category")),
            options: object(v.get("options")),
            metadata: object(v.get("metadata")),
            output_target: targets,
        }
    }
}

/// An input file of a job.
pub struct InputFile {
    pub id: Option<String>,
    /// The API input `type`.
    pub kind: String,
    pub source: Option<String>,
    pub status: Option<String>,
    pub filename: Option<String>,
    pub size: Option<i64>,
    pub content_type: Option<String>,
    pub options: Vec<(String, Json)>,
    /// Cloud-input locator keys surfaced on read; empty for other inputs.
    pub parameters: Vec<(String, Json)>,
}

/// `f` is the input file read from `v`.
pub open spec fn input_file_from(f: InputFile, v: JsonV) -> bool {
    &&& opt_chars(f.id) == spec_opt_string(member(v, "id"@))
    &&& f.kind@ == spec_string(member(v, "type"@), ""@)
    &&& opt_chars(f.source) == spec_opt_string(member(v, "source"@))
    &&& opt_chars(f.status) == spec_opt_string(member(v, "status"@))
    &&& opt_chars(f.filename) == spec_opt_string(member(v, "filename"@))
    &&& f.size == spec_opt_i64(member(v, "size"@))
    &&& opt_chars(f.content_type) == spec_opt_string(member(v, "content_type"@))
    &&& view_entries(f.options@) == spec_object(member(v, "options"@))
    &&& view_entries(f.parameters@) == spec_object(member(v, "parameters"@))
}

impl InputFile {
    /// Read an input-file object.
    pub fn from_value(v: &Json) -> (r: InputFile)
        ensures
            input_file_from(r, v@),
    {
        InputFile {
            id: opt_string(v.get("id")),
            kind: string(v.get("type"), ""),
            source: opt_string(v.get("source")),
            status: opt_string(v.get("status")),
            filename: opt_string(v.get("filename")),
            size: opt_i64(v.get("size")),
            content_type: opt_string(v.get("content_type")),
            options: object(v.get("options")),
            parameters: object(v.get("parameters")),
        }
    }
}

/// An output file of a job. `uri` is a self-contained download URL.
pub struct OutputFile {
    pub id: Option<String>,
    pub uri: String,
    pub filename: Option<String>,
    pub size: Option<i64>,
    pub status: Option<String>,
    pub content_type: Option<String>,
    pub checksum: Option<String>,
    pub metadata: Vec<(String, Json)>,
}

/// `f` is the output file read from `v`.
pub open spec fn output_file_from(f: OutputFile, v: JsonV) -> bool {
    &&& opt_chars(f.id) == spec_opt_string(member(v, "id"@))
    &&& f.uri@ == spec_string(member(v, "uri"@), ""@)
    &&& opt_chars(f.filename) == spec_opt_string(member(v, "filename"@))
    &&& f.size == spec_opt_i64(member(v, "size"@))
    &&& opt_chars(f.status) == spec_opt_string(member(v, "status"@))
    &&& opt_chars(f.content_type) == spec_opt_string(member(v, "content_type"@))
    &&& opt_chars(f.checksum) == spec_opt_string(member(v, "checksum"@))
    &&& view_entries(f.metadata@) == spec_object(member(v, "metadata"@))
}

impl OutputFile {
    /// Read an output-file object.
    pub fn from_value(v: &Json) -> (r: OutputFile)
        ensures
            output_file_from(r, v@),
    {
        OutputFile {
            id: opt_string(v.get("id")),
            uri: string(v.get("uri"), ""),
            filename: opt_string(v.get("filename")),
            size: opt_i64(v.get("size")),
            status: opt_string(v.get("status")),
            content_type: opt_string(v.get("content_type")),
            checksum: opt_string(v.get("checksum")),
            metadata: object(v.get("metadata")),
        }
    }

    /// An output referring to a bare URL, for downloading a URI already held
    /// (e.g. from a webhook payload) without a full job.
    pub fn with_uri(uri: &str) -> (r: OutputFile)
        ensures
            r.uri@ == uri@,
            r.id is None && r.filename is None && r.size is None && r.status is None,
            r.content_type is None && r.checksum is None && r.metadata@.len() == 0,
    {
        OutputFile {
            id: None,
            uri: owned(uri),
            filename: None,
            size: None,
            status: None,
            content_type: None,
            checksum: None,
            metadata: Vec::new(),
        }
    }

    /// An independent copy.
    pub fn copy(&self) -> (r: OutputFile)
        ensures
            r.uri@ == self.uri@,
            opt_chars(r.id) == opt_chars(self.id),
            opt_chars(r.filename) == opt_chars(self.filename),
            r.size == self.size,
            opt_chars(r.status) == opt_chars(self.status),
            opt_chars(r.content_type) == opt_chars(self.content_type),
            opt_chars(r.checksum) == opt_chars(self.checksum),
            view_entries(r.metadata@) == view_entries(self.metadata@),
    {
        OutputFile {
            id: copy_opt(&self.id),
            uri: self.uri.clone(),
            filename: copy_opt(&self.filename),
            size: self.size,
            status: copy_opt(&self.status),
            content_type: copy_opt(&self.content_type),
            checksum: copy_opt(&self.checksum),
            metadata: crate::json::clone_entries(&self.metadata),
        }
    }
}

/// A copy of an optional string.
pub fn copy_opt(s: &Option<String>) -> (r: Option<String>)
    ensures
        opt_chars(r) == opt_chars(*s),
{
    match s {
        Some(x) => Some(x.clone()),
        None => None,
    }
}

/// An entry of a job's `errors[]` / `warnings[]`.
pub struct JobMessage {
    pub code: Option<i64>,
    pub message: String,
    pub source: Option<String>,
    pub id_source: Option<String>,
    pub details: Vec<(String, Json)>,
}

/// `m` is the message read from `v`.
pub open spec fn job_message_from(m: JobMessage, v: JsonV) -> bool {
    &&& m.code == spec_opt_i64(member(v, "code"@))
    &&& m.message@ == spec_string(member(v, "message"@), ""@)
    &&& opt_chars(m.source) == spec_opt_string(member(v, "source"@))
    &&& opt_chars(m.id_source) == spec_opt_string(member(v, "id_source"@))
    &&& view_entries(m.details@) == spec_object(member(v, "details"@))
}

impl JobMessage {
    /// Read a message object.
    pub fn from_value(v: &Json) -> (r: JobMessage)
        ensures
            job_message_from(r, v@),
    {
        JobMessage {
            code: opt_i64(v.get("code")),
            message: string(v.get("message"), ""),
            source: opt_string(v.get("source")),
            id_source: opt_string(v.get("id_source")),
            details: object(v.get("details")),
        }
    }
}


impl JobMessage {
    /// An independent copy.
    pub fn copy(&self) -> (r: JobMessage)
        ensures
            r.code == self.code,
            r.message@ == self.message@,
            opt_chars(r.source) == opt_chars(self.source),
            opt_chars(r.id_source) == opt_chars(self.id_source),
            view_entries(r.details@) == view_entries(self.details@),
    {
        JobMessage {
            code: self.code,
            message: self.message.clone(),
            source: copy_opt(&self.source),
            id_source: copy_opt(&self.id_source),
            details: crate::json::clone_entries(&self.details),
        }
    }
}

/// `a` carries the same message as `b`, field for field.
pub open spec fn same_message(a: JobMessage, b: JobMessage) -> bool {
    &&& a.code == b.code
    &&& a.message@ == b.message@
    &&& opt_chars(a.source) == opt_chars(b.source)
    &&& opt_chars(a.id_source) == opt_chars(b.id_source)
    &&& view_entries(a.details@) == view_entries(b.details@)
}

/// Copies of a list of messages.
pub fn copy_messages(ms: &Vec<JobMessage>) -> (r: Vec<JobMessage>)
    ensures
        r@.len() == ms@.len(),
        forall|i: int| 0 <= i < r@.len() ==> same_message(#[trigger] r@[i], ms@[i]),
{
    let mut out: Vec<JobMessage> = Vec::new();
    let mut i: usize = 0;
    while i < ms.len()
        invariant
            i <= ms@.len(),
            out@.len() == i,
            forall|k: int| 0 <= k < i ==> same_message(#[trigger] out@[k], ms@[k]),
        decreases ms@.len() - i,
    {
        out.push(ms[i].copy());
        i = i + 1;
    }
    out
}

/// A saved conversion preset.
pub struct Preset {
    pub id: Option<String>,
    pub name: String,
    pub target: Option<String>,
    pub category: Option<String>,
    pub scope: Option<String>,
    pub options: Vec<(String, Json)>,
}

/// `p` is the preset read from `v`.
pub open spec fn preset_from(p: Preset, v: JsonV) -> bool {
    &&& opt_chars(p.id) == spec_opt_string(member(v, "id"@))
    &&& p.name@ == spec_string(member(v, "name"@), ""@)
    &&& opt_chars(p.target) == spec_opt_string(member(v, "target"@))
    &&& opt_chars(p.category) == spec_opt_string(member(v, "category"@))
    &&& opt_chars(p.scope) == spec_opt_string(member(v, "scope"@))
    &&& view_entries(p.options@) == spec_object(member(v, "options"@))
}

impl Preset {
    /// Read a preset object.
    pub fn from_value(v: &Json) -> (r: Preset)
        ensures
            preset_from(r, v@),
    {
        Preset {
            id: opt_string(v.get("id")),
            name: string(v.get("name"), ""),
            target: opt_string(v.get("target")),
            category: opt_string(v.get("category")),
            scope: opt_string(v.get("scope")),
            options: object(v.get("options")),
        }
    }
}

/// A conversion job — the central resource.
pub struct Job {
    pub id: String,
    pub status: Status,
    /// Per-job upload token; never the account key.
    pub token: Option<String>,
    /// Per-job upload server base URL.
    pub server: Option<String>,
    pub callback: Option<String>,
    pub conversion: Vec<Conversion>,
    pub input: Vec<InputFile>,
    pub output: Vec<OutputFile>,
    pub errors: Vec<JobMessage>,
    pub warnings: Vec<JobMessage>,
    /// The full decoded response.
    pub raw: Json,
}

/// The member `key`, or `null` when absent.
pub open spec fn member_or_null(v: JsonV, key: Seq<char>) -> JsonV {
    match member(v, key) {
        Some(x) => x,
        None => JsonV::Null,
    }
}

/// `j` is the job read from `v`.
pub open spec fn job_from(j: Job, v: JsonV) -> bool {
    &&& j.id@ == spec_string(member(v, "id"@), ""@)
    &&& status_from(j.status, member_or_null(v, "status"@))
    &&& opt_chars(j.token) == spec_opt_string(member(v, "token"@))
    &&& opt_chars(j.server) == spec_opt_string(member(v, "server"@))
    &&& opt_chars(j.callback) == spec_opt_string(member(v, "callback"@))
    &&& j.conversion@.len() == spec_list(member(v, "conversion"@)).len()
    &&& (forall|i: int|
        0 <= i < j.conversion@.len() ==> conversion_from(
            #[trigger] j.conversion@[i],
            spec_list(member(v, "conversion"@))[i],
        ))
    &&& j.input@.len() == spec_list(member(v, "input"@)).len()
    &&& (forall|i: int|
        0 <= i < j.input@.len() ==> input_file_from(
            #[trigger] j.input@[i],
            spec_list(member(v, "input"@))[i],
        ))
    &&& j.output@.len() == spec_list(member(v, "output"@)).len()
    &&& (forall|i: int|
        0 <= i < j.output@.len() ==> output_file_from(
            #[trigger] j.output@[i],
            spec_list(member(v, "output"@))[i],
        ))
    &&& j.errors@.len() == spec_list(member(v, "errors"@)).len()
    &&& (forall|i: int|
        0 <= i < j.errors@.len() ==> job_message_from(
            #[trigger] j.errors@[i],
            spec_list(member(v, "errors"@))[i],
        ))
    &&& j.warnings@.len() == spec_list(member(v, "warnings"@)).len()
    &&& (forall|i: int|
        0 <= i < j.warnings@.len() ==> job_message_from(
            #[trigger] j.warnings@[i],
            spec_list(member(v, "warnings"@))[i],
        ))
    &&& j.raw@ == v
}

/// The conversions of a list value.
pub fn conversions_from(v: Option<&Json>) -> (r: Vec<Conversion>)
    ensures
        r@.len() == spec_list(crate::json::opt_view(v)).len(),
        forall|i: int|
            0 <= i < r@.len() ==> conversion_from(#[trigger] r@[i], spec_list(crate::json::opt_view(v))[i]),
{
    let items = list(v);
    let mut out: Vec<Conversion> = Vec::new();
    let mut i: usize = 0;
    while i < items.len()
        invariant
            i <= items@.len(),
            out@.len() == i,
            forall|k: int| 0 <= k < i ==> conversion_from(#[trigger] out@[k], view_items(items@)[k]),
        decreases items@.len() - i,
    {
        out.push(Conversion::from_value(&items[i]));
        i = i + 1;
    }
    out
}

/// The input files of a list value.
pub fn input_files_from(v: Option<&Json>) -> (r: Vec<InputFile>)
    ensures
        r@.len() == spec_list(crate::json::opt_view(v)).len(),
        forall|i: int|
            0 <= i < r@.len() ==> input_file_from(#[trigger] r@[i], spec_list(crate::json::opt_view(v))[i]),
{
    let items = list(v);
    let mut out: Vec<InputFile> = Vec::new();
    let mut i: usize = 0;
    while i < items.len()
        invariant
            i <= items@.len(),
            out@.len() == i,
            forall|k: int| 0 <= k < i ==> input_file_from(#[trigger] out@[k], view_items(items@)[k]),
        decreases items@.len() - i,
    {
        out.push(InputFile::from_value(&items[i]));
        i = i + 1;
    }
    out
}

/// The output files of a list value.
pub fn output_files_from(v: Option<&Json>) -> (r: Vec<OutputFile>)
    ensures
        r@.len() == spec_list(crate::json::opt_view(v)).len(),
        forall|i: int|
            0 <= i < r@.len() ==> output_file_from(#[trigger] r@[i], spec_list(crate::json::opt_view(v))[i]),
{
    let items = list(v);
    let mut out: Vec<OutputFile> = Vec::new();
    let mut i: usize = 0;
    while i < items.len()
        invariant
            i <= items@.len(),
            out@.len() == i,
            forall|k: int| 0 <= k < i ==> output_file_from(#[trigger] out@[k], view_items(items@)[k]),
        decreases items@.len() - i,
    {
        out.push(OutputFile::from_value(&items[i]));
        i = i + 1;
    }
    out
}

/// The messages of a list value.
pub fn job_messages_from(v: Option<&Json>) -> (r: Vec<JobMessage>)
    ensures
        r@.len() == spec_list(crate::json::opt_view(v)).len(),
        forall|i: int|
            0 <= i < r@.len() ==> job_message_from(#[trigger] r@[i], spec_list(crate::json::opt_view(v))[i]),
{
    let items = list(v);
    let mut out: Vec<JobMessage> = Vec::new();
    let mut i: usize = 0;
    while i < items.len()
        invariant
            i <= items@.len(),
            out@.len() == i,
            forall|k: int| 0 <= k < i ==> job_message_from(#[trigger] out@[k], view_items(items@)[k]),
        decreases items@.len() - i,
    {
        out.push(JobMessage::from_value(&items[i]));
        i = i + 1;
    }
    out
}

/// The presets of a list value.
pub fn presets_from(v: Option<&Json>) -> (r: Vec<Preset>)
    ensures
        r@.len() == spec_list(crate::json::opt_view(v)).len(),
        forall|i: int|
            0 <= i < r@.len() ==> preset_from(#[trigger] r@[i], spec_list(crate::json::opt_view(v))[i]),
{
    let items = list(v);
    let mut out: Vec<Preset> = Vec::new();
    let mut i: usize = 0;
    while i < items.len()
        invariant
            i <= items@.len(),
            out@.len() == i,
            forall|k: int| 0 <= k < i ==> preset_from(#[trigger] out@[k], view_items(items@)[k]),
        decreases items@.len() - i,
    {
        out.push(Preset::from_value(&items[i]));
        i = i + 1;
    }
    out
}

/// The jobs of a list value.
pub fn jobs_from(v: Option<&Json>) -> (r: Vec<Job>)
    ensures
        r@.len() == spec_list(crate::json::opt_view(v)).len(),
        forall|i: int|
            0 <= i < r@.len() ==> job_from(#[trigger] r@[i], spec_list(crate::json::opt_view(v))[i]),
{
    let items = list(v);
    let mut out: Vec<Job> = Vec::new();
    let mut i: usize = 0;
    while i < items.len()
        invariant
            i <= items@.len(),
            out@.len() == i,
            forall|k: int| 0 <= k < i ==> job_from(#[trigger] out@[k], view_items(items@)[k]),
        decreases items@.len() - i,
    {
        out.push(Job::from_value(&items[i]));
        i = i + 1;
    }
    out
}

impl Job {
    /// Read a job object.
    pub fn from_value(v: &Json) -> (r: Job)
        ensures
            job_from(r, v@),
    {
        let status = match v.get("status") {
            Some(s) => Status::from_value(s),
            None => Status::from_value(&Json::Null),
        };
        Job {
            id: string(v.get("id"), ""),
            status,
            token: opt_string(v.get("token")),
            server: opt_string(v.get("server")),
            callback: opt_string(v.get("callback")),
            conversion: conversions_from(v.get("conversion")),
            input: input_files_from(v.get("input")),
            output: output_files_from(v.get("output")),
            errors: job_messages_from(v.get("errors")),
            warnings: job_messages_from(v.get("warnings")),
            raw: v.deep_clone(),
        }
    }

    /// Whether the job finished successfully.
    pub fn is_completed(&self) -> (r: bool)
        ensures
            r == (self.status.code@ == "completed"@),
    {
        str_eq(self.status.code.as_str(), job_status::COMPLETED)
    }

    /// Whether the job failed.
    pub fn is_failed(&self) -> (r: bool)
        ensures
            r == (self.status.code@ == "failed"@),
    {
        str_eq(self.status.code.as_str(), job_status::FAILED)
    }

    /// Whether the job was canceled.
    pub fn is_canceled(&self) -> (r: bool)
        ensures
            r == (self.status.code@ == "canceled"@),
    {
        str_eq(self.status.code.as_str(), job_status::CANCELED)
    }

    /// Whether the job reached a terminal status (`completed`/`failed`/`canceled`).
    pub fn is_terminal(&self) -> (r: bool)
        ensures
            r == spec_terminal(self.status.code@),
    {
        job_status::is_terminal(self.status.code.as_str())
    }
}

} // verus!
