//! The per-request query pipeline.
//!
//! A request resolves the owning workspace folder and a symbol token, issues
//! one index query, and then turns every output line into a resolved
//! location: parse the cross-reference record, join the workspace root with
//! the record's relative path, and re-resolve the exact range.  The embedding
//! program only spawns the tool and reads files; every decision in between is
//! made here.  Any failing record aborts the whole batch with its error,
//! which the caller forwards unchanged.

use vstd::prelude::*;

use crate::cxref::CxrefRecord;
use crate::cxref::cxref_digits;
use crate::cxref::cxref_grammar_ok;
use crate::cxref::cxref_line_ok;
use crate::cxref::cxref_path;
use crate::cxref::cxref_rest;
use crate::cxref::cxref_symbol;
use crate::cxref::digits_val;
use crate::cxref::parse_cxref;
use crate::error::QueryError;
use crate::location::Location;
use crate::location::Position;
use crate::location::Range;
use crate::location::occurs_at;
use crate::location::resolve_full_precision;
use crate::location::resolve_low_precision;
use crate::symbols::SymbolInformation;
use crate::symbols::SymbolKind;
use crate::symbols::create_symbol_information;
use crate::symbols::has_macro_define;
use crate::text::split_lines_spec;
use crate::workspace::is_absolute_path;
use crate::workspace::join_workspace_path;

verus! {

/// Everything needed to finish resolving one cross-reference record: the
/// record itself, the absolute path of its file, and its 0-based line index.
#[derive(Clone, Debug, PartialEq, Eq)]
pub struct ResolutionPlan {
    /// The parsed record.
    pub record: CxrefRecord,
    /// Absolute path of the file the record points into.
    pub abs_path: String,
    /// 0-based line index inside that file.
    pub line_index: u32,
}

/// An output line can be planned: it parses, its line number is usable, and
/// joining the root with its path yields an absolute path.
pub open spec fn line_plannable(root: Seq<char>, line: Seq<char>) -> bool {
    &&& cxref_grammar_ok(line)
    &&& cxref_line_ok(line)
    &&& is_absolute_path(root + seq!['/'] + cxref_path(line))
}

/// The error a non-plannable line produces, in checking order.
pub open spec fn plan_error_spec(root: Seq<char>, line: Seq<char>) -> QueryError {
    if !cxref_grammar_ok(line) {
        QueryError::MalformedIndexRecord
    } else if !cxref_line_ok(line) {
        QueryError::InvalidLineNumber
    } else {
        QueryError::PathNotAbsolute
    }
}

/// The plan carries exactly the fields of the parsed line.
pub open spec fn plan_matches(root: Seq<char>, line: Seq<char>, plan: ResolutionPlan) -> bool {
    &&& plan.record.symbol@ == cxref_symbol(line)
    &&& plan.record.line as int == digits_val(cxref_digits(line))
    &&& plan.record.path@ == cxref_path(line)
    &&& plan.record.context@ == cxref_rest(line)
    &&& plan.abs_path@ == root + seq!['/'] + cxref_path(line)
    &&& plan.line_index as int == digits_val(cxref_digits(line)) - 1
}

/// Parse one output line and plan its resolution against `root`.
pub fn plan_cxref_line(root: &str, line: &str) -> (r: Result<ResolutionPlan, QueryError>)
    ensures
        match r {
            Ok(plan) => line_plannable(root@, line@) && plan_matches(root@, line@, plan),
            Err(e) => !line_plannable(root@, line@) && e == plan_error_spec(root@, line@),
        },
{
    let record = match parse_cxref(line) {
        Ok(rec) => rec,
        Err(e) => {
            return Err(e);
        },
    };
    let abs_path = match join_workspace_path(root, record.path.as_str()) {
        Ok(p) => p,
        Err(e) => {
            return Err(e);
        },
    };
    let line_index = record.line - 1;
    Ok(ResolutionPlan { record, abs_path, line_index })
}

/// Plan every output line of one query, in output order.  The first
/// non-plannable line aborts the batch with its error.
pub fn parse_plans(root: &str, lines: &Vec<String>) -> (r: Result<Vec<ResolutionPlan>, QueryError>)
    ensures
        match r {
            Ok(plans) => {
                &&& plans.len() == lines.len()
                &&& forall|i: int|
                    0 <= i < lines.len() ==> line_plannable(root@, #[trigger] lines[i]@)
                        && plan_matches(root@, lines[i]@, plans[i])
            },
            Err(e) => exists|i: int|
                {
                    &&& 0 <= i < lines.len()
                    &&& !line_plannable(root@, #[trigger] lines[i]@)
                    &&& e == plan_error_spec(root@, lines[i]@)
                    &&& forall|j: int| 0 <= j < i ==> line_plannable(root@, #[trigger] lines[j]@)
                },
        },
{
    let mut plans: Vec<ResolutionPlan> = Vec::new();
    let n = lines.len();
    let mut i: usize = 0;
    while i < n
        invariant
            i <= n == lines.len(),
            plans.len() == i,
            forall|j: int|
                0 <= j < i ==> line_plannable(root@, #[trigger] lines[j]@) && plan_matches(
                    root@,
                    lines[j]@,
                    plans[j],
                ),
        decreases n - i,
    {
        match plan_cxref_line(root, lines[i].as_str()) {
            Ok(plan) => {
                plans.push(plan);
            },
            Err(e) => {
                return Err(e);
            },
        }
        i = i + 1;
    }
    Ok(plans)
}

/// A location matching a plan in low-precision mode: a zero-width range at
/// the start of the planned line.
pub open spec fn low_loc_matches(plan: ResolutionPlan, loc: Location) -> bool {
    &&& loc.path@ == plan.abs_path@
    &&& loc.range == (Range {
        start: Position { line: plan.line_index, character: 0 },
        end: Position { line: plan.line_index, character: 0 },
    })
}

/// The planned line exists in the content and holds the symbol.
pub open spec fn full_resolvable(content: Seq<char>, line_index: int, symbol: Seq<char>) -> bool {
    &&& line_index < split_lines_spec(content).len()
    &&& exists|c: int| occurs_at(split_lines_spec(content)[line_index], symbol, c)
}

/// The error when a plan cannot be resolved against the content: a stale
/// index, either a vanished line or a vanished symbol.
pub open spec fn full_resolve_error(
    content: Seq<char>,
    line_index: int,
    symbol: Seq<char>,
) -> QueryError {
    if line_index >= split_lines_spec(content).len() {
        QueryError::LineIndexOutOfRange
    } else {
        QueryError::SymbolNotFoundInLine
    }
}

/// A location matching a plan in full-precision mode: the range spans the
/// symbol's first occurrence on the planned line of `content`.
pub open spec fn full_loc_matches(
    path: Seq<char>,
    content: Seq<char>,
    line_index: int,
    symbol: Seq<char>,
    loc: Location,
) -> bool {
    &&& loc.path@ == path
    &&& exists|c: int|
        {
            &&& #[trigger] occurs_at(split_lines_spec(content)[line_index], symbol, c)
            &&& (forall|j: int|
                0 <= j < c ==> !occurs_at(split_lines_spec(content)[line_index], symbol, j))
            &&& loc.range == (Range {
                start: Position { line: line_index as u32, character: c as u32 },
                end: Position { line: line_index as u32, character: (c + symbol.len()) as u32 },
            })
        }
}

/// Resolve one plan in low-precision mode: no file content is needed.
pub fn resolve_plan_low(plan: &ResolutionPlan) -> (loc: Location)
    ensures
        low_loc_matches(*plan, loc),
{
    resolve_low_precision(plan.abs_path.as_str(), plan.line_index)
}

/// Resolve one plan in full-precision mode against the file content read by
/// the caller, re-scanning the planned line for `symbol`.
pub fn resolve_plan_full(plan: &ResolutionPlan, content: &str, symbol: &str) -> (r: Result<
    Location,
    QueryError,
>)
    requires
        content@.len() <= u32::MAX,
    ensures
        match r {
            Ok(loc) => {
                &&& full_resolvable(content@, plan.line_index as int, symbol@)
                &&& full_loc_matches(
                    plan.abs_path@,
                    content@,
                    plan.line_index as int,
                    symbol@,
                    loc,
                )
            },
            Err(e) => {
                &&& !full_resolvable(content@, plan.line_index as int, symbol@)
                &&& e == full_resolve_error(content@, plan.line_index as int, symbol@)
            },
        },
{
    resolve_full_precision(plan.abs_path.as_str(), content, plan.line_index, symbol)
}

/// Resolve every plan of one query to a location, all in low precision or
/// all in full precision against the contents the caller read, one content
/// string per plan, searching every planned line for the same `symbol`.
/// The first failing plan aborts the batch with its error.
pub fn complete_locations(
    plans: &Vec<ResolutionPlan>,
    contents: &Vec<String>,
    symbol: &str,
    low_precision: bool,
) -> (r: Result<Vec<Location>, QueryError>)
    requires
        low_precision || (contents.len() == plans.len() && (forall|i: int|
            0 <= i < contents.len() ==> (#[trigger] contents[i]@).len() <= u32::MAX)),
    ensures
        match r {
            Ok(locs) => {
                &&& locs.len() == plans.len()
                &&& (low_precision ==> forall|i: int|
                    0 <= i < plans.len() ==> low_loc_matches(#[trigger] plans[i], locs[i]))
                &&& (!low_precision ==> forall|i: int|
                    0 <= i < plans.len() ==> full_loc_matches(
                        (#[trigger] plans[i]).abs_path@,
                        contents[i]@,
                        plans[i].line_index as int,
                        symbol@,
                        locs[i],
                    ))
            },
            Err(e) => {
                &&& !low_precision
                &&& exists|i: int|
                    {
                        &&& 0 <= i < plans.len()
                        &&& !full_resolvable(
                            contents[i]@,
                            (#[trigger] plans[i]).line_index as int,
                            symbol@,
                        )
                        &&& e == full_resolve_error(
                            contents[i]@,
                            plans[i].line_index as int,
                            symbol@,
                        )
                        &&& forall|j: int|
                            0 <= j < i ==> full_resolvable(
                                contents[j]@,
                                (#[trigger] plans[j]).line_index as int,
                                symbol@,
                            )
                    }
            },
        },
{
    let mut locs: Vec<Location> = Vec::new();
    let n = plans.len();
    let mut i: usize = 0;
    while i < n
        invariant
            i <= n == plans.len(),
            locs.len() == i,
            low_precision || (contents.len() == plans.len() && (forall|k: int|
                0 <= k < contents.len() ==> (#[trigger] contents[k]@).len() <= u32::MAX)),
            low_precision ==> forall|k: int|
                0 <= k < i ==> low_loc_matches(#[trigger] plans[k], locs[k]),
            !low_precision ==> forall|k: int|
                0 <= k < i ==> full_loc_matches(
                    (#[trigger] plans[k]).abs_path@,
                    contents[k]@,
                    plans[k].line_index as int,
                    symbol@,
                    locs[k],
                ),
            !low_precision ==> forall|k: int|
                0 <= k < i ==> full_resolvable(
                    contents[k]@,
                    (#[trigger] plans[k]).line_index as int,
                    symbol@,
                ),
        decreases n - i,
    {
        if low_precision {
            let loc = resolve_plan_low(&plans[i]);
            locs.push(loc);
        } else {
            match resolve_plan_full(&plans[i], contents[i].as_str(), symbol) {
                Ok(loc) => {
                    locs.push(loc);
                },
                Err(e) => {
                    return Err(e);
                },
            }
        }
        i = i + 1;
    }
    Ok(locs)
}

/// The symbol information built for one plan: the record's own symbol name,
/// the heuristic kind of its trailing context, and its resolved location.
pub open spec fn symbol_info_matches(
    plan: ResolutionPlan,
    content: Seq<char>,
    low_precision: bool,
    info: SymbolInformation,
) -> bool {
    &&& info.name@ == plan.record.symbol@
    &&& info.kind == (if has_macro_define(plan.record.context@) {
        SymbolKind::Null
    } else {
        SymbolKind::Function
    })
    &&& (if low_precision {
        low_loc_matches(plan, info.location)
    } else {
        full_loc_matches(
            plan.abs_path@,
            content,
            plan.line_index as int,
            plan.record.symbol@,
            info.location,
        )
    })
}

/// Resolve every plan of a symbol query to symbol information, searching
/// each planned line for that record's own symbol.  The first failing plan
/// aborts the batch with its error.
pub fn complete_symbol_infos(
    plans: &Vec<ResolutionPlan>,
    contents: &Vec<String>,
    low_precision: bool,
) -> (r: Result<Vec<SymbolInformation>, QueryError>)
    requires
        low_precision || (contents.len() == plans.len() && (forall|i: int|
            0 <= i < contents.len() ==> (#[trigger] contents[i]@).len() <= u32::MAX)),
    ensures
        match r {
            Ok(infos) => {
                &&& infos.len() == plans.len()
                &&& forall|i: int|
                    0 <= i < plans.len() ==> symbol_info_matches(
                        #[trigger] plans[i],
                        if low_precision {
                            Seq::<char>::empty()
                        } else {
                            contents[i]@
                        },
                        low_precision,
                        infos[i],
                    )
            },
            Err(e) => {
                &&& !low_precision
                &&& exists|i: int|
                    {
                        &&& 0 <= i < plans.len()
                        &&& !full_resolvable(
                            contents[i]@,
                            (#[trigger] plans[i]).line_index as int,
                            plans[i].record.symbol@,
                        )
                        &&& e == full_resolve_error(
                            contents[i]@,
                            plans[i].line_index as int,
                            plans[i].record.symbol@,
                        )
                        &&& forall|j: int|
                            0 <= j < i ==> full_resolvable(
                                contents[j]@,
                                (#[trigger] plans[j]).line_index as int,
                                plans[j].record.symbol@,
                            )
                    }
            },
        },
{
    let mut infos: Vec<SymbolInformation> = Vec::new();
    let n = plans.len();
    let mut i: usize = 0;
    while i < n
        invariant
            i <= n == plans.len(),
            infos.len() == i,
            low_precision || (contents.len() == plans.len() && (forall|k: int|
                0 <= k < contents.len() ==> (#[trigger] contents[k]@).len() <= u32::MAX)),
            forall|k: int|
                0 <= k < i ==> symbol_info_matches(
                    #[trigger] plans[k],
                    if low_precision {
                        Seq::<char>::empty()
                    } else {
                        contents[k]@
                    },
                    low_precision,
                    infos[k],
                ),
            !low_precision ==> forall|k: int|
                0 <= k < i ==> full_resolvable(
                    contents[k]@,
                    (#[trigger] plans[k]).line_index as int,
                    plans[k].record.symbol@,
                ),
        decreases n - i,
    {
        let plan = &plans[i];
        let loc = if low_precision {
            resolve_plan_low(plan)
        } else {
            match resolve_plan_full(plan, contents[i].as_str(), plan.record.symbol.as_str()) {
                Ok(loc) => loc,
                Err(e) => {
                    return Err(e);
                },
            }
        };
        let info = create_symbol_information(plan.record.symbol.clone(), loc, plan.record.context.as_str());
        infos.push(info);
        i = i + 1;
    }
    Ok(infos)
}

} // verus!
