//! The requests of the resource methods (jobs, conversions, presets, stats):
//! their paths, with every dynamic segment encoded, and their query pairs;
//! and what the options lookup makes of the catalog rows it receives.

use vstd::prelude::*;

use crate::data::{object, spec_object};
use crate::json::{member, view_items, Json, JsonV};
use crate::text::{decimal, decimal_string, push_all, push_str, string_from_chars};
use crate::transport::encode::{encode_segment, pct_encoded};
use vstd::utf8::encode_utf8;

verus! {

/// A path segment as sent: percent-encoded.
pub open spec fn segment(s: Seq<char>) -> Seq<char> {
    pct_encoded(encode_utf8(s))
}

/// `{collection}/{id}`, with `id` encoded.
pub open spec fn item_path(collection: Seq<char>, id: Seq<char>) -> Seq<char> {
    collection + "/"@ + segment(id)
}

/// `{collection}/{id}`, with `id` encoded.
fn item_path_exec(collection: &str, id: &str) -> (r: Vec<char>)
    ensures
        r@ == item_path(collection@, id@),
{
    let mut out: Vec<char> = Vec::new();
    push_str(&mut out, collection);
    push_str(&mut out, "/");
    let e = encode_segment(id);
    push_str(&mut out, e.as_str());
    out
}

/// The path of a job: `jobs/{id}`.
pub fn job_path(job_id: &str) -> (r: String)
    ensures
        r@ == item_path("jobs"@, job_id@),
{
    let p = item_path_exec("jobs", job_id);
    string_from_chars(&p)
}

/// The path that attaches an input to a job: `jobs/{id}/input`.
pub fn job_input_path(job_id: &str) -> (r: String)
    ensures
        r@ == item_path("jobs"@, job_id@) + "/input"@,
{
    let mut p = item_path_exec("jobs", job_id);
    push_str(&mut p, "/input");
    string_from_chars(&p)
}

/// The path of a job's outputs: `jobs/{id}/output`.
pub fn job_output_path(job_id: &str) -> (r: String)
    ensures
        r@ == item_path("jobs"@, job_id@) + "/output"@,
{
    let mut p = item_path_exec("jobs", job_id);
    push_str(&mut p, "/output");
    string_from_chars(&p)
}

/// The path of a preset: `presets/{id}`.
pub fn preset_path(preset_id: &str) -> (r: String)
    ensures
        r@ == item_path("presets"@, preset_id@),
{
    let p = item_path_exec("presets", preset_id);
    string_from_chars(&p)
}

/// The stats filter in effect: the given one when non-empty, else `all`.
pub open spec fn stats_filter(filter: Option<Seq<char>>) -> Seq<char> {
    match filter {
        Some(f) => if f.len() > 0 {
            f
        } else {
            "all"@
        },
        None => "all"@,
    }
}

/// The stats path `stats/{period}/{value}/{filter}`, each segment encoded.
pub open spec fn stats_path_of(period: Seq<char>, value: Seq<char>, filter: Option<Seq<char>>) -> Seq<char> {
    "stats/"@ + segment(period) + "/"@ + segment(value) + "/"@ + segment(stats_filter(filter))
}

/// The path of a stats query (`period` is `day`, `month` or `year`).
pub fn stats_path(period: &str, value: &str, filter: Option<&str>) -> (r: String)
    ensures
        r@ == stats_path_of(
            period@,
            value@,
            match filter {
                Some(f) => Some(f@),
                None => None,
            },
        ),
{
    let f = match filter {
        Some(f) => if f.unicode_len() > 0 {
            f
        } else {
            "all"
        },
        None => "all",
    };
    let mut out: Vec<char> = Vec::new();
    push_str(&mut out, "stats/");
    let a = encode_segment(period);
    push_str(&mut out, a.as_str());
    push_str(&mut out, "/");
    let b = encode_segment(value);
    push_str(&mut out, b.as_str());
    push_str(&mut out, "/");
    let c = encode_segment(f);
    push_str(&mut out, c.as_str());
    string_from_chars(&out)
}

/// The page requested: the given one, at least 1; 1 when none is given.
pub open spec fn page_number(page: Option<u32>) -> nat {
    match page {
        Some(p) => if p >= 1 {
            p as nat
        } else {
            1
        },
        None => 1,
    }
}

/// The query pairs, as character sequences.
pub open spec fn query_view(q: Seq<(String, String)>) -> Seq<(Seq<char>, Seq<char>)> {
    Seq::new(q.len(), |i: int| (q[i].0@, q[i].1@))
}

/// `pairs`, then `(name, value)` when a non-empty value is given.
pub open spec fn with_filter(
    pairs: Seq<(Seq<char>, Seq<char>)>,
    name: Seq<char>,
    value: Option<Seq<char>>,
) -> Seq<(Seq<char>, Seq<char>)> {
    match value {
        Some(v) => if v.len() > 0 {
            pairs.push((name, v))
        } else {
            pairs
        },
        None => pairs,
    }
}

/// The optional text as a sequence.
pub open spec fn opt_seq(o: Option<&str>) -> Option<Seq<char>> {
    match o {
        Some(s) => Some(s@),
        None => None,
    }
}

/// Add `(name, value)` when a non-empty value is given.
fn push_filter(q: &mut Vec<(String, String)>, name: &str, value: Option<&str>)
    ensures
        query_view(final(q)@) == with_filter(query_view(old(q)@), name@, opt_seq(value)),
{
    let ghost before = query_view(q@);
    match value {
        Some(v) => {
            if v.unicode_len() > 0 {
                q.push((crate::json::owned(name), crate::json::owned(v)));
                assert(query_view(q@) =~= before.push((name@, v@)));
            }
        },
        None => {},
    }
}

/// The `page` pair.
fn page_pair(page: Option<u32>) -> (r: (String, String))
    ensures
        r.0@ == "page"@,
        r.1@ == decimal(page_number(page)),
{
    let p: u32 = match page {
        Some(p) => if p >= 1 {
            p
        } else {
            1
        },
        None => 1,
    };
    let d = decimal_string(p as u64);
    (crate::json::owned("page"), string_from_chars(&d))
}

/// The query of a job listing: the page, then the status filter.
pub fn jobs_query(status: Option<&str>, page: Option<u32>) -> (r: Vec<(String, String)>)
    ensures
        query_view(r@) == with_filter(seq![("page"@, decimal(page_number(page)))], "status"@, opt_seq(status)),
{
    let mut q: Vec<(String, String)> = Vec::new();
    q.push(page_pair(page));
    assert(query_view(q@) =~= seq![("page"@, decimal(page_number(page)))]);
    push_filter(&mut q, "status", status);
    q
}

/// The query of a conversions listing: the page, then the category and
/// target filters.
pub fn conversions_query(category: Option<&str>, target: Option<&str>, page: Option<u32>) -> (r: Vec<(String, String)>)
    ensures
        query_view(r@) == with_filter(
            with_filter(seq![("page"@, decimal(page_number(page)))], "category"@, opt_seq(category)),
            "target"@,
            opt_seq(target),
        ),
{
    let mut q: Vec<(String, String)> = Vec::new();
    q.push(page_pair(page));
    assert(query_view(q@) =~= seq![("page"@, decimal(page_number(page)))]);
    push_filter(&mut q, "category", category);
    push_filter(&mut q, "target", target);
    q
}

/// The query of a presets listing: the category, target and free-text
/// filters.
pub fn presets_query(category: Option<&str>, target: Option<&str>, filter: Option<&str>) -> (r: Vec<(String, String)>)
    ensures
        query_view(r@) == with_filter(
            with_filter(with_filter(Seq::empty(), "category"@, opt_seq(category)), "target"@, opt_seq(target)),
            "filter"@,
            opt_seq(filter),
        ),
{
    let mut q: Vec<(String, String)> = Vec::new();
    assert(query_view(q@) =~= Seq::<(Seq<char>, Seq<char>)>::empty());
    push_filter(&mut q, "category", category);
    push_filter(&mut q, "target", target);
    push_filter(&mut q, "filter", filter);
    q
}

/// The option schema of a target: the `options` object of the first
/// catalog row, or nothing when there is no row.
pub open spec fn options_of_rows(rows: Seq<JsonV>) -> Seq<(Seq<char>, JsonV)> {
    if rows.len() > 0 {
        spec_object(member(rows[0], "options"@))
    } else {
        Seq::empty()
    }
}

/// The option schema found in the catalog rows of a target.
pub fn options_from_rows(rows: &Vec<Json>) -> (r: Vec<(String, Json)>)
    ensures
        crate::json::view_entries(r@) == options_of_rows(view_items(rows@)),
{
    if rows.len() > 0 {
        object(rows[0].get("options"))
    } else {
        let r: Vec<(String, Json)> = Vec::new();
        assert(crate::json::view_entries(r@) =~= Seq::<(Seq<char>, JsonV)>::empty());
        r
    }
}

} // verus!
