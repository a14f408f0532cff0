//! Paged listings: the window of rows that a request asks for, and the
//! conditions that narrow a listing down.

use vstd::prelude::*;
use crate::token::{join, spec_join, texts};

verus! {

/// The largest number of rows that one page holds.
pub const MAX_PAGE_SIZE: u64 = 100;

/// The window of a listing that one request sees.
#[derive(Debug, Clone, Copy, PartialEq, Eq, Structural)]
pub struct Window {
    /// The number of the page, counted from 1.
    pub page: u64,
    /// The number of rows on a page.
    pub per_page: u64,
    /// The number of rows that come before the page.
    pub offset: u64,
}

/// The window for a requested page and page size. A missing page, or page
/// 0, is page 1. A missing size is `default_size`; a size is at least
/// `least_size` and at most `MAX_PAGE_SIZE`. An offset beyond what 64 bits
/// hold stands at the largest number: no listing reaches that far.
pub open spec fn spec_window(
    page: Option<u64>,
    per_page: Option<u64>,
    default_size: u64,
    least_size: u64,
) -> Window {
    let asked = match per_page {
        Some(n) => n,
        None => default_size,
    };
    let size = if asked < least_size {
        least_size
    } else if asked > MAX_PAGE_SIZE {
        MAX_PAGE_SIZE
    } else {
        asked
    };
    let number = match page {
        Some(p) => if p >= 1 {
            p
        } else {
            1
        },
        None => 1,
    };
    let before = (number - 1) * size;
    Window {
        page: number,
        per_page: size,
        offset: if before <= u64::MAX {
            before as u64
        } else {
            u64::MAX
        },
    }
}

/// Computes the window for a requested page and page size.
pub fn window(page: Option<u64>, per_page: Option<u64>, default_size: u64, least_size: u64) -> (w:
    Window)
    ensures
        w == spec_window(page, per_page, default_size, least_size),
{
    let asked = match per_page {
        Some(n) => n,
        None => default_size,
    };
    let size = if asked < least_size {
        least_size
    } else if asked > MAX_PAGE_SIZE {
        MAX_PAGE_SIZE
    } else {
        asked
    };
    let number = match page {
        Some(p) => if p >= 1 {
            p
        } else {
            1
        },
        None => 1,
    };
    let offset = match (number - 1).checked_mul(size) {
        Some(before) => before,
        None => u64::MAX,
    };
    Window { page: number, per_page: size, offset }
}

/// A page of a listing never holds more than `MAX_PAGE_SIZE` rows nor fewer
/// than the least size, its number is at least 1, and the first page starts
/// at the first row.
pub proof fn lemma_window_bounds(
    page: Option<u64>,
    per_page: Option<u64>,
    default_size: u64,
    least_size: u64,
)
    requires
        least_size <= MAX_PAGE_SIZE,
    ensures
        ({
            let w = spec_window(page, per_page, default_size, least_size);
            &&& least_size <= w.per_page <= MAX_PAGE_SIZE
            &&& w.page >= 1
            &&& w.page == 1 ==> w.offset == 0
            &&& (w.page - 1) * w.per_page <= u64::MAX ==> w.offset == (w.page - 1) * w.per_page
        }),
{
    let w = spec_window(page, per_page, default_size, least_size);
    assert(w.page == 1 ==> (w.page - 1) * w.per_page == 0) by (nonlinear_arith);
}

/// A value bound to a placeholder of a listing's condition.
#[derive(Debug, PartialEq, Eq)]
pub enum FilterValue {
    /// A number.
    U64(u64),
    /// A text.
    Str(String),
}

/// A bound value, as a value.
pub enum FilterValueView {
    /// A number.
    U64(u64),
    /// A text.
    Str(Seq<char>),
}

impl View for FilterValue {
    type V = FilterValueView;

    open spec fn view(&self) -> FilterValueView {
        match self {
            FilterValue::U64(n) => FilterValueView::U64(*n),
            FilterValue::Str(s) => FilterValueView::Str(s@),
        }
    }
}

/// The values of a list of bound values.
pub open spec fn bound(values: Seq<FilterValue>) -> Seq<FilterValueView> {
    Seq::new(values.len(), |i: int| values[i]@)
}

/// The query of an employee listing.
#[derive(Debug)]
pub struct EmployeeQuery {
    pub page: Option<u32>,
    pub per_page: Option<u32>,
    pub department_id: Option<u64>,
    pub job_title_id: Option<u64>,
    pub status: Option<String>,
    pub search: Option<String>,
}

/// The query of a payroll listing.
pub struct PayrollQuery {
    pub page: Option<u32>,
    pub per_page: Option<u32>,
    pub employee_id: Option<u64>,
}

/// The query of a listing of leave requests.
pub struct LeaveFilter {
    /// Only this employee's requests.
    pub employee_id: Option<u64>,
    /// Only requests in this state.
    pub status: Option<String>,
    /// The number of the page, counted from 1.
    pub page: Option<u64>,
    /// The number of rows on a page.
    pub per_page: Option<u64>,
}

/// A 32-bit request parameter, widened.
pub open spec fn widened(n: Option<u32>) -> Option<u64> {
    match n {
        Some(v) => Some(v as u64),
        None => None,
    }
}

fn widen(n: Option<u32>) -> (w: Option<u64>)
    ensures
        w == widened(n),
{
    match n {
        Some(v) => Some(v as u64),
        None => None,
    }
}

/// The window of an employee listing: 20 rows by default, at least one.
pub fn employee_window(query: &EmployeeQuery) -> (w: Window)
    ensures
        w == spec_window(widened(query.page), widened(query.per_page), 20, 1),
        w.offset == (w.page - 1) * w.per_page,
{
    let w = window(widen(query.page), widen(query.per_page), 20, 1);
    assert((w.page - 1) * w.per_page <= u64::MAX) by (nonlinear_arith)
        requires
            1 <= w.page <= u32::MAX,
            w.per_page <= 100,
    ;
    w
}

/// The window of a payroll listing: 10 rows by default, at least one.
pub fn payroll_window(query: &PayrollQuery) -> (w: Window)
    ensures
        w == spec_window(widened(query.page), widened(query.per_page), 10, 1),
        w.offset == (w.page - 1) * w.per_page,
{
    let w = window(widen(query.page), widen(query.per_page), 10, 1);
    assert((w.page - 1) * w.per_page <= u64::MAX) by (nonlinear_arith)
        requires
            1 <= w.page <= u32::MAX,
            w.per_page <= 100,
    ;
    w
}

/// The window of a listing of leave requests: 10 rows by default. A page
/// size of 0 is let through and gives empty pages.
pub fn leave_window(filter: &LeaveFilter) -> (w: Window)
    ensures
        w == spec_window(filter.page, filter.per_page, 10, 0),
{
    window(filter.page, filter.per_page, 10, 0)
}

/// The conditions of a listing and the values for their placeholders.
#[derive(Debug, PartialEq, Eq)]
pub struct Conditions {
    /// The `WHERE` clause, or the text that stands in its place.
    pub where_sql: String,
    /// The values for the clause's placeholders, in their order.
    pub args: Vec<FilterValue>,
}

/// The conditions of an employee listing, one for each criterion given.
pub open spec fn employee_conditions(query: EmployeeQuery) -> Seq<Seq<char>> {
    (if query.department_id.is_some() {
        seq!["department_id = ?"@]
    } else {
        seq![]
    }) + (if query.job_title_id.is_some() {
        seq!["job_title_id = ?"@]
    } else {
        seq![]
    }) + (if query.status.is_some() {
        seq!["status = ?"@]
    } else {
        seq![]
    }) + (if query.search.is_some() {
        seq!["(first_name LIKE ? OR last_name LIKE ? OR email LIKE ?)"@]
    } else {
        seq![]
    })
}

/// The pattern that matches every text in which `search` occurs.
pub open spec fn like_pattern(search: Seq<char>) -> Seq<char> {
    "%"@ + search + "%"@
}

/// The values for the placeholders of an employee listing's conditions.
pub open spec fn employee_args(query: EmployeeQuery) -> Seq<FilterValueView> {
    (match query.department_id {
        Some(id) => seq![FilterValueView::U64(id)],
        None => seq![],
    }) + (match query.job_title_id {
        Some(id) => seq![FilterValueView::U64(id)],
        None => seq![],
    }) + (match query.status {
        Some(status) => seq![FilterValueView::Str(status@)],
        None => seq![],
    }) + (match query.search {
        Some(search) => seq![
            FilterValueView::Str(like_pattern(search@)),
            FilterValueView::Str(like_pattern(search@)),
            FilterValueView::Str(like_pattern(search@)),
        ],
        None => seq![],
    })
}

/// The `WHERE` clause of a list of conditions, all of which must hold; no
/// clause at all where there is no condition.
pub open spec fn where_clause(conditions: Seq<Seq<char>>) -> Seq<char> {
    if conditions.len() == 0 {
        Seq::empty()
    } else {
        "WHERE "@ + spec_join(conditions, " AND "@)
    }
}

/// The conditions of an employee listing.
pub fn employee_filter(query: &EmployeeQuery) -> (found: Conditions)
    ensures
        found.where_sql@ == where_clause(employee_conditions(*query)),
        bound(found.args@) == employee_args(*query),
{
    let mut conditions: Vec<String> = Vec::new();
    let mut args: Vec<FilterValue> = Vec::new();
    assert(texts(conditions@) =~= Seq::<Seq<char>>::empty());
    assert(bound(args@) =~= Seq::<FilterValueView>::empty());
    if let Some(id) = query.department_id {
        let ghost before = (texts(conditions@), bound(args@));
        conditions.push(String::from_str("department_id = ?"));
        args.push(FilterValue::U64(id));
        assert(texts(conditions@) =~= before.0 + seq!["department_id = ?"@]);
        assert(bound(args@) =~= before.1 + seq![FilterValueView::U64(id)]);
    } else {
        assert(texts(conditions@) =~= texts(conditions@) + Seq::<Seq<char>>::empty());
        assert(bound(args@) =~= bound(args@) + Seq::<FilterValueView>::empty());
    }
    let ghost after_department = (texts(conditions@), bound(args@));
    if let Some(id) = query.job_title_id {
        conditions.push(String::from_str("job_title_id = ?"));
        args.push(FilterValue::U64(id));
        assert(texts(conditions@) =~= after_department.0 + seq!["job_title_id = ?"@]);
        assert(bound(args@) =~= after_department.1 + seq![FilterValueView::U64(id)]);
    } else {
        assert(texts(conditions@) =~= after_department.0 + Seq::<Seq<char>>::empty());
        assert(bound(args@) =~= after_department.1 + Seq::<FilterValueView>::empty());
    }
    let ghost after_job = (texts(conditions@), bound(args@));
    if let Some(status) = &query.status {
        conditions.push(String::from_str("status = ?"));
        let value = status.clone();
        args.push(FilterValue::Str(value));
        assert(texts(conditions@) =~= after_job.0 + seq!["status = ?"@]);
        assert(bound(args@) =~= after_job.1 + seq![FilterValueView::Str(status@)]);
    } else {
        assert(texts(conditions@) =~= after_job.0 + Seq::<Seq<char>>::empty());
        assert(bound(args@) =~= after_job.1 + Seq::<FilterValueView>::empty());
    }
    let ghost after_status = (texts(conditions@), bound(args@));
    if let Some(search) = &query.search {
        conditions.push(
            String::from_str("(first_name LIKE ? OR last_name LIKE ? OR email LIKE ?)"),
        );
        let mut like = String::from_str("%");
        like.append(search.as_str());
        like.append("%");
        args.push(FilterValue::Str(like.clone()));
        args.push(FilterValue::Str(like.clone()));
        args.push(FilterValue::Str(like));
        assert(texts(conditions@) =~= after_status.0 + seq![
            "(first_name LIKE ? OR last_name LIKE ? OR email LIKE ?)"@,
        ]);
        assert(bound(args@) =~= after_status.1 + seq![
            FilterValueView::Str(like_pattern(search@)),
            FilterValueView::Str(like_pattern(search@)),
            FilterValueView::Str(like_pattern(search@)),
        ]);
    } else {
        assert(texts(conditions@) =~= after_status.0 + Seq::<Seq<char>>::empty());
        assert(bound(args@) =~= after_status.1 + Seq::<FilterValueView>::empty());
    }
    assert(texts(conditions@) == employee_conditions(*query));
    let where_sql = if conditions.len() == 0 {
        String::new()
    } else {
        let mut clause = String::from_str("WHERE ");
        let joined = join(&conditions, " AND ");
        clause.append(joined.as_str());
        clause
    };
    Conditions { where_sql, args }
}

/// The statement that counts the employees of a listing.
pub fn employee_count_sql(where_sql: &str) -> (sql: String)
    ensures
        sql@ == "SELECT COUNT(*) as total FROM employees "@ + where_sql@,
{
    let mut sql = String::from_str("SELECT COUNT(*) as total FROM employees ");
    sql.append(where_sql);
    sql
}

/// The statement that fetches one page of an employee listing, newest
/// first. Its last two placeholders take the page size and the offset.
pub fn employee_page_sql(where_sql: &str) -> (sql: String)
    ensures
        sql@ == "SELECT * FROM employees "@ + where_sql@ + " ORDER BY id DESC LIMIT ? OFFSET ?"@,
{
    let mut sql = String::from_str("SELECT * FROM employees ");
    sql.append(where_sql);
    sql.append(" ORDER BY id DESC LIMIT ? OFFSET ?");
    sql
}

/// The conditions of a listing of leave requests: a clause that always
/// holds, narrowed by each criterion given.
pub open spec fn leave_where(filter: LeaveFilter) -> Seq<char> {
    " WHERE 1=1"@ + (if filter.employee_id.is_some() {
        " AND employee_id = ?"@
    } else {
        Seq::empty()
    }) + (if filter.status.is_some() {
        " AND status = ?"@
    } else {
        Seq::empty()
    })
}

/// The values for the placeholders of `leave_where`.
pub open spec fn leave_args(filter: LeaveFilter) -> Seq<FilterValueView> {
    (match filter.employee_id {
        Some(id) => seq![FilterValueView::U64(id)],
        None => seq![],
    }) + (match filter.status {
        Some(status) => seq![FilterValueView::Str(status@)],
        None => seq![],
    })
}

/// The conditions of a listing of leave requests.
pub fn leave_conditions(filter: &LeaveFilter) -> (found: Conditions)
    ensures
        found.where_sql@ == leave_where(*filter),
        bound(found.args@) == leave_args(*filter),
{
    let mut where_sql = String::from_str(" WHERE 1=1");
    let mut args: Vec<FilterValue> = Vec::new();
    assert(bound(args@) =~= Seq::<FilterValueView>::empty());
    if let Some(id) = filter.employee_id {
        where_sql.append(" AND employee_id = ?");
        args.push(FilterValue::U64(id));
        assert(bound(args@) =~= seq![FilterValueView::U64(id)]);
    } else {
        assert(where_sql@ =~= " WHERE 1=1"@ + Seq::<char>::empty());
    }
    let ghost after_employee = (where_sql@, bound(args@));
    if let Some(status) = &filter.status {
        where_sql.append(" AND status = ?");
        args.push(FilterValue::Str(status.clone()));
        assert(bound(args@) =~= after_employee.1 + seq![FilterValueView::Str(status@)]);
    } else {
        assert(where_sql@ =~= after_employee.0 + Seq::<char>::empty());
        assert(bound(args@) =~= after_employee.1 + Seq::<FilterValueView>::empty());
    }
    Conditions { where_sql, args }
}

/// The statement that counts the leave requests of a listing.
pub fn leave_count_sql(where_sql: &str) -> (sql: String)
    ensures
        sql@ == "SELECT COUNT(*) FROM leave_requests"@ + where_sql@,
{
    let mut sql = String::from_str("SELECT COUNT(*) FROM leave_requests");
    sql.append(where_sql);
    sql
}

/// The statement that fetches one page of a listing of leave requests,
/// newest first. Its last two placeholders take the page size and the
/// offset.
pub fn leave_page_sql(where_sql: &str) -> (sql: String)
    ensures
        sql@
            == "SELECT id, employee_id, start_date, end_date, leave_type, status, created_at FROM leave_requests"@
            + where_sql@ + " ORDER BY created_at DESC LIMIT ? OFFSET ?"@,
{
    let mut sql = String::from_str(
        "SELECT id, employee_id, start_date, end_date, leave_type, status, created_at FROM leave_requests",
    );
    sql.append(where_sql);
    sql.append(" ORDER BY created_at DESC LIMIT ? OFFSET ?");
    sql
}

} // verus!
