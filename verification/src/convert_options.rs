//! Extra controls for a conversion. These named controls are kept strictly
//! apart from the open-ended conversion-options map, so an API option key can
//! never collide with a control of the library.

use vstd::prelude::*;

use crate::cloud::OutputTarget;
use crate::data::opt_chars;
use crate::json::{entries_insert, keys_sorted, inserted, owned, view_entries, Json};

verus! {

/// Controls for a synchronous conversion.
pub struct ConvertOptions {
    /// Target-specific conversion options, entries in key order.
    pub conversion_options: Vec<(String, Json)>,
    pub category: Option<String>,
    pub filename: Option<String>,
    pub download_password: Option<String>,
    pub output_index: usize,
    /// The poll timeout for this conversion, in nanoseconds.
    pub timeout_ns: Option<u64>,
    /// Cloud delivery targets for the outputs.
    pub output_targets: Vec<OutputTarget>,
}

impl ConvertOptions {
    /// The options map keeps its keys in strictly increasing order.
    pub open spec fn wf(&self) -> bool {
        keys_sorted(view_entries(self.conversion_options@))
    }

    /// No controls: no options, no category, filename, password or targets,
    /// the first output, the configured timeout.
    pub fn new() -> (r: ConvertOptions)
        ensures
            r.wf(),
            r.conversion_options@.len() == 0,
            r.category is None,
            r.filename is None,
            r.download_password is None,
            r.output_index == 0,
            r.timeout_ns is None,
            r.output_targets@.len() == 0,
    {
        let r = ConvertOptions {
            conversion_options: Vec::new(),
            category: None,
            filename: None,
            download_password: None,
            output_index: 0,
            timeout_ns: None,
            output_targets: Vec::new(),
        };
        assert(view_entries(r.conversion_options@) =~= Seq::empty());
        r
    }

    /// Set the whole options map (passed as given to the conversion's
    /// `options`).
    pub fn conversion_options(self, options: Vec<(String, Json)>) -> (r: ConvertOptions)
        requires
            keys_sorted(view_entries(options@)),
        ensures
            r.wf(),
            r.conversion_options@ == options@,
            r.category == self.category,
            r.filename == self.filename,
            r.download_password == self.download_password,
            r.output_index == self.output_index,
            r.timeout_ns == self.timeout_ns,
            r.output_targets@ == self.output_targets@,
    {
        ConvertOptions { conversion_options: options, ..self }
    }

    /// Add or replace a single conversion option.
    pub fn option(self, key: &str, value: Json) -> (r: ConvertOptions)
        requires
            self.wf(),
        ensures
            r.wf(),
            view_entries(r.conversion_options@) == inserted(view_entries(self.conversion_options@), key@, value@),
            r.category == self.category,
            r.filename == self.filename,
            r.download_password == self.download_password,
            r.output_index == self.output_index,
            r.timeout_ns == self.timeout_ns,
            r.output_targets@ == self.output_targets@,
    {
        let mut s = self;
        proof {
            crate::json::lemma_inserted(view_entries(s.conversion_options@), key@, value@, key@);
        }
        entries_insert(&mut s.conversion_options, owned(key), value);
        s
    }

    /// Disambiguate an ambiguous target format.
    pub fn category(self, category: &str) -> (r: ConvertOptions)
        ensures
            opt_chars(r.category) == Some(category@),
            r.conversion_options@ == self.conversion_options@,
            r.filename == self.filename,
            r.download_password == self.download_password,
            r.output_index == self.output_index,
            r.timeout_ns == self.timeout_ns,
            r.output_targets@ == self.output_targets@,
    {
        ConvertOptions { category: Some(owned(category)), ..self }
    }

    /// The advertised filename for an uploaded local file or stream.
    pub fn filename(self, filename: &str) -> (r: ConvertOptions)
        ensures
            opt_chars(r.filename) == Some(filename@),
            r.conversion_options@ == self.conversion_options@,
            r.category == self.category,
            r.download_password == self.download_password,
            r.output_index == self.output_index,
            r.timeout_ns == self.timeout_ns,
            r.output_targets@ == self.output_targets@,
    {
        ConvertOptions { filename: Some(owned(filename)), ..self }
    }

    /// Protect every output with a download password; it is remembered on the
    /// result and sent on download.
    pub fn download_password(self, password: &str) -> (r: ConvertOptions)
        ensures
            opt_chars(r.download_password) == Some(password@),
            r.conversion_options@ == self.conversion_options@,
            r.category == self.category,
            r.filename == self.filename,
            r.output_index == self.output_index,
            r.timeout_ns == self.timeout_ns,
            r.output_targets@ == self.output_targets@,
    {
        ConvertOptions { download_password: Some(owned(password)), ..self }
    }

    /// Which output file the result selects.
    pub fn output_index(self, index: usize) -> (r: ConvertOptions)
        ensures
            r.output_index == index,
            r.conversion_options@ == self.conversion_options@,
            r.category == self.category,
            r.filename == self.filename,
            r.download_password == self.download_password,
            r.timeout_ns == self.timeout_ns,
            r.output_targets@ == self.output_targets@,
    {
        ConvertOptions { output_index: index, ..self }
    }

    /// Override the poll timeout (nanoseconds) for this conversion.
    pub fn timeout(self, ns: u64) -> (r: ConvertOptions)
        ensures
            r.timeout_ns == Some(ns),
            r.conversion_options@ == self.conversion_options@,
            r.category == self.category,
            r.filename == self.filename,
            r.download_password == self.download_password,
            r.output_index == self.output_index,
            r.output_targets@ == self.output_targets@,
    {
        ConvertOptions { timeout_ns: Some(ns), ..self }
    }

    /// Deliver the outputs to a cloud target as well (added after any
    /// earlier ones).
    pub fn output_target(self, target: OutputTarget) -> (r: ConvertOptions)
        ensures
            r.output_targets@ == self.output_targets@.push(target),
            r.conversion_options@ == self.conversion_options@,
            r.category == self.category,
            r.filename == self.filename,
            r.download_password == self.download_password,
            r.output_index == self.output_index,
            r.timeout_ns == self.timeout_ns,
    {
        let mut s = self;
        s.output_targets.push(target);
        s
    }
}

/// Controls for an asynchronous conversion.
pub struct AsyncOptions {
    /// Target-specific conversion options, entries in key order.
    pub conversion_options: Vec<(String, Json)>,
    pub category: Option<String>,
    pub filename: Option<String>,
    pub download_password: Option<String>,
    /// A webhook URL notified on status change.
    pub callback: Option<String>,
    /// Cloud delivery targets for the outputs.
    pub output_targets: Vec<OutputTarget>,
}

impl AsyncOptions {
    /// The options map keeps its keys in strictly increasing order.
    pub open spec fn wf(&self) -> bool {
        keys_sorted(view_entries(self.conversion_options@))
    }

    /// No controls.
    pub fn new() -> (r: AsyncOptions)
        ensures
            r.wf(),
            r.conversion_options@.len() == 0,
            r.category is None,
            r.filename is None,
            r.download_password is None,
            r.callback is None,
            r.output_targets@.len() == 0,
    {
        let r = AsyncOptions {
            conversion_options: Vec::new(),
            category: None,
            filename: None,
            download_password: None,
            callback: None,
            output_targets: Vec::new(),
        };
        assert(view_entries(r.conversion_options@) =~= Seq::empty());
        r
    }

    /// Set the whole options map.
    pub fn conversion_options(self, options: Vec<(String, Json)>) -> (r: AsyncOptions)
        requires
            keys_sorted(view_entries(options@)),
        ensures
            r.wf(),
            r.conversion_options@ == options@,
            r.category == self.category,
            r.filename == self.filename,
            r.download_password == self.download_password,
            r.callback == self.callback,
            r.output_targets@ == self.output_targets@,
    {
        AsyncOptions { conversion_options: options, ..self }
    }

    /// Add or replace a single conversion option.
    pub fn option(self, key: &str, value: Json) -> (r: AsyncOptions)
        requires
            self.wf(),
        ensures
            r.wf(),
            view_entries(r.conversion_options@) == inserted(view_entries(self.conversion_options@), key@, value@),
            r.category == self.category,
            r.filename == self.filename,
            r.download_password == self.download_password,
            r.callback == self.callback,
            r.output_targets@ == self.output_targets@,
    {
        let mut s = self;
        proof {
            crate::json::lemma_inserted(view_entries(s.conversion_options@), key@, value@, key@);
        }
        entries_insert(&mut s.conversion_options, owned(key), value);
        s
    }

    /// Disambiguate an ambiguous target format.
    pub fn category(self, category: &str) -> (r: AsyncOptions)
        ensures
            opt_chars(r.category) == Some(category@),
            r.conversion_options@ == self.conversion_options@,
            r.filename == self.filename,
            r.download_password == self.download_password,
            r.callback == self.callback,
            r.output_targets@ == self.output_targets@,
    {
        AsyncOptions { category: Some(owned(category)), ..self }
    }

    /// The advertised filename for an uploaded local file or stream.
    pub fn filename(self, filename: &str) -> (r: AsyncOptions)
        ensures
            opt_chars(r.filename) == Some(filename@),
            r.conversion_options@ == self.conversion_options@,
            r.category == self.category,
            r.download_password == self.download_password,
            r.callback == self.callback,
            r.output_targets@ == self.output_targets@,
    {
        AsyncOptions { filename: Some(owned(filename)), ..self }
    }

    /// Protect every output with a download password (sets the job's
    /// `download_passwords`).
    pub fn download_password(self, password: &str) -> (r: AsyncOptions)
        ensures
            opt_chars(r.download_password) == Some(password@),
            r.conversion_options@ == self.conversion_options@,
            r.category == self.category,
            r.filename == self.filename,
            r.callback == self.callback,
            r.output_targets@ == self.output_targets@,
    {
        AsyncOptions { download_password: Some(owned(password)), ..self }
    }

    /// A webhook URL to notify on status change (sets `notify_status`).
    pub fn callback(self, url: &str) -> (r: AsyncOptions)
        ensures
            opt_chars(r.callback) == Some(url@),
            r.conversion_options@ == self.conversion_options@,
            r.category == self.category,
            r.filename == self.filename,
            r.download_password == self.download_password,
            r.output_targets@ == self.output_targets@,
    {
        AsyncOptions { callback: Some(owned(url)), ..self }
    }

    /// Deliver the outputs to a cloud target as well.
    pub fn output_target(self, target: OutputTarget) -> (r: AsyncOptions)
        ensures
            r.output_targets@ == self.output_targets@.push(target),
            r.conversion_options@ == self.conversion_options@,
            r.category == self.category,
            r.filename == self.filename,
            r.download_password == self.download_password,
            r.callback == self.callback,
    {
        let mut s = self;
        s.output_targets.push(target);
        s
    }
}

impl Default for ConvertOptions {
    /// The same as [`ConvertOptions::new`].
    fn default() -> (r: ConvertOptions)
        ensures
            r.wf(),
            r.conversion_options@.len() == 0,
            r.category is None,
            r.filename is None,
            r.download_password is None,
            r.output_index == 0,
            r.timeout_ns is None,
            r.output_targets@.len() == 0,
    {
        ConvertOptions::new()
    }
}

impl Default for AsyncOptions {
    /// The same as [`AsyncOptions::new`].
    fn default() -> (r: AsyncOptions)
        ensures
            r.wf(),
            r.conversion_options@.len() == 0,
            r.category is None,
            r.filename is None,
            r.download_password is None,
            r.callback is None,
            r.output_targets@.len() == 0,
    {
        AsyncOptions::new()
    }
}

} // verus!
