use vstd::prelude::*;
use crate::cli::report::{Tone, Line, LineView, report_view, p, emit};
use crate::utils::text::{decimal, decimal_string, join, join_strings, string_views};

verus! {

/// A line `<indent><key>: <value>`.
pub open spec fn kv(indent: Seq<char>, key: Seq<char>, value: Seq<char>) -> LineView {
    seq![p(indent), p(key), p(": "@), p(value)]
}

/// A `kv` line when the value is there, nothing otherwise.
pub open spec fn opt_kv(indent: Seq<char>, key: Seq<char>, value: Option<String>) -> Seq<LineView> {
    match value {
        Some(v) => seq![kv(indent, key, v@)],
        None => Seq::empty(),
    }
}

/// A `kv` line showing a number when it is there, nothing otherwise.
pub open spec fn opt_count(indent: Seq<char>, key: Seq<char>, value: Option<nat>) -> Seq<LineView> {
    match value {
        Some(n) => seq![kv(indent, key, decimal(n))],
        None => Seq::empty(),
    }
}

/// A `u32` that may be missing, as a natural number.
pub open spec fn opt_u32(o: Option<u32>) -> Option<nat> {
    match o {
        Some(n) => Some(n as nat),
        None => None,
    }
}

/// A `u16` that may be missing, as a natural number.
pub open spec fn opt_u16(o: Option<u16>) -> Option<nat> {
    match o {
        Some(n) => Some(n as nat),
        None => None,
    }
}

/// A line `  <id> (<name>)` with the ID standing out.
pub open spec fn keyed_entry(id: Seq<char>, name: Seq<char>) -> LineView {
    seq![p("  "@), (Tone::Key, id), p(" ("@), p(name), p(")"@)]
}

/// A line of one span in the title tone.
pub open spec fn title_line(t: Seq<char>) -> LineView {
    seq![(Tone::Title, t)]
}

/// The texts of some strings joined with `, `.
pub open spec fn comma_list(v: Seq<String>) -> Seq<char> {
    join(string_views(v), ", "@)
}

pub fn emit_kv(out: &mut Vec<Line>, indent: &str, key: &str, value: &str)
    ensures
        report_view(final(out)@) == report_view(old(out)@).push(kv(indent@, key@, value@)),
{
    let mut l = Line::new();
    l.plain(indent);
    l.plain(key);
    l.plain(": ");
    l.plain(value);
    assert(l@ =~= kv(indent@, key@, value@));
    emit(out, l);
}

pub fn emit_opt_kv(out: &mut Vec<Line>, indent: &str, key: &str, value: &Option<String>)
    ensures
        report_view(final(out)@) == report_view(old(out)@) + opt_kv(indent@, key@, *value),
{
    let ghost before = report_view(out@);
    match value {
        Some(v) => emit_kv(out, indent, key, v.as_str()),
        None => {},
    }
    assert(report_view(out@) =~= before + opt_kv(indent@, key@, *value));
}

pub fn emit_opt_u32(out: &mut Vec<Line>, indent: &str, key: &str, value: Option<u32>)
    ensures
        report_view(final(out)@) == report_view(old(out)@) + opt_count(indent@, key@, opt_u32(value)),
{
    let ghost before = report_view(out@);
    match value {
        Some(n) => {
            let t = decimal_string(n as u64);
            emit_kv(out, indent, key, t.as_str());
        },
        None => {},
    }
    assert(report_view(out@) =~= before + opt_count(indent@, key@, opt_u32(value)));
}

pub fn emit_opt_u16(out: &mut Vec<Line>, indent: &str, key: &str, value: Option<u16>)
    ensures
        report_view(final(out)@) == report_view(old(out)@) + opt_count(indent@, key@, opt_u16(value)),
{
    let ghost before = report_view(out@);
    match value {
        Some(n) => {
            let t = decimal_string(n as u64);
            emit_kv(out, indent, key, t.as_str());
        },
        None => {},
    }
    assert(report_view(out@) =~= before + opt_count(indent@, key@, opt_u16(value)));
}

pub fn emit_keyed_entry(out: &mut Vec<Line>, id: &str, name: &str)
    ensures
        report_view(final(out)@) == report_view(old(out)@).push(keyed_entry(id@, name@)),
{
    let mut l = Line::new();
    l.plain("  ");
    l.add(Tone::Key, id);
    l.plain(" (");
    l.plain(name);
    l.plain(")");
    assert(l@ =~= keyed_entry(id@, name@));
    emit(out, l);
}

pub fn emit_title_line(out: &mut Vec<Line>, t: &str)
    ensures
        report_view(final(out)@) == report_view(old(out)@).push(title_line(t@)),
{
    let mut l = Line::new();
    l.add(Tone::Title, t);
    assert(l@ =~= title_line(t@));
    emit(out, l);
}

pub fn comma_text(v: &Vec<String>) -> (r: String)
    ensures
        r@ == comma_list(v@),
{
    join_strings(v, ", ")
}

} // verus!
