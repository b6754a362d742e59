use vstd::prelude::*;

use crate::chars::{is_ws, push_char, str_to_chars, ws};
use crate::date::{
    date_ok_at, date_value_at, read_date_at, push_date, spec_add_days, spec_date_seq,
    spec_next_day, spec_prev_day, spec_weekday, spec_weekend_delta, today, Date,
};

verus! {

/// The one way task construction can fail: a `due:` value that is neither a
/// literal date nor a known keyword.
#[derive(Clone, Copy, PartialEq, Eq, Structural, Debug)]
pub enum ParseError {
    MalformedDueDate,
}

/// Position `i` starts a token: it is the line start or follows whitespace.
pub open spec fn boundary(s: Seq<char>, i: int) -> bool {
    i == 0 || is_ws(s[i - 1])
}

/// The line carries the completion marker: a leading `x` followed by a
/// separator.
pub open spec fn spec_done(s: Seq<char>) -> bool {
    s.len() >= 2 && s[0] == 'x' && is_ws(s[1])
}

/// A `(X)` priority token with a single uppercase letter sits at `i`.
pub open spec fn pri_at(s: Seq<char>, i: int) -> bool {
    &&& 0 <= i
    &&& i + 3 <= s.len()
    &&& s[i] == '('
    &&& 'A' <= s[i + 1] <= 'Z'
    &&& s[i + 2] == ')'
}

pub open spec fn find_pri(s: Seq<char>, i: int) -> Option<char>
    decreases s.len() - i,
{
    if i < 0 || i + 3 > s.len() {
        None
    } else if pri_at(s, i) {
        Some(s[i + 1])
    } else {
        find_pri(s, i + 1)
    }
}

/// The single character inside the first `(X)` token of the line.
pub open spec fn spec_priority(s: Seq<char>) -> Option<char> {
    find_pri(s, 0)
}

/// A double quote at a token boundary: where a name field can open.
pub open spec fn quote_at(s: Seq<char>, i: int) -> bool {
    0 <= i < s.len() && s[i] == '"' && boundary(s, i)
}

pub open spec fn find_quote(s: Seq<char>, i: int) -> Option<int>
    decreases s.len() - i,
{
    if i < 0 || i >= s.len() {
        None
    } else if quote_at(s, i) {
        Some(i)
    } else {
        find_quote(s, i + 1)
    }
}

/// Index of the last `"` strictly before `i`, if any.
pub open spec fn last_quote(s: Seq<char>, i: int) -> Option<int>
    decreases i,
{
    if i <= 0 {
        None
    } else if s[i - 1] == '"' {
        Some(i - 1)
    } else {
        last_quote(s, i - 1)
    }
}

/// The content of the first boundary-opened quoted segment: from the first
/// qualifying `"` up to the last `"` of the line. Empty when no such segment
/// closes.
pub open spec fn spec_name(s: Seq<char>) -> Seq<char> {
    match find_quote(s, 0) {
        Some(i) => match last_quote(s, s.len() as int) {
            Some(j) => if j > i {
                s.subrange(i + 1, j)
            } else {
                Seq::empty()
            },
            None => Seq::empty(),
        },
        None => Seq::empty(),
    }
}

/// First position at or after `i` that ends the current run of
/// non-whitespace characters.
pub open spec fn token_end(s: Seq<char>, i: int) -> int
    decreases s.len() - i,
{
    if i < 0 || i >= s.len() {
        i
    } else if is_ws(s[i]) {
        i
    } else {
        token_end(s, i + 1)
    }
}

/// A `+project` token opens at `i`.
pub open spec fn proj_at(s: Seq<char>, i: int) -> bool {
    &&& 0 <= i
    &&& i + 2 <= s.len()
    &&& s[i] == '+'
    &&& boundary(s, i)
    &&& !is_ws(s[i + 1])
}

pub open spec fn find_proj(s: Seq<char>, i: int) -> Option<int>
    decreases s.len() - i,
{
    if i < 0 || i >= s.len() {
        None
    } else if proj_at(s, i) {
        Some(i)
    } else {
        find_proj(s, i + 1)
    }
}

/// The token after the first boundary-preceded `+`, if any.
pub open spec fn spec_project(s: Seq<char>) -> Option<Seq<char>> {
    match find_proj(s, 0) {
        Some(i) => Some(s.subrange(i + 1, token_end(s, i + 1))),
        None => None,
    }
}

/// An `@context` token opens at `i`.
pub open spec fn ctx_at(s: Seq<char>, i: int) -> bool {
    &&& 0 <= i
    &&& i + 2 <= s.len()
    &&& s[i] == '@'
    &&& boundary(s, i)
    &&& !is_ws(s[i + 1])
}

pub open spec fn collect_ctx(s: Seq<char>, i: int) -> Seq<Seq<char>>
    decreases s.len() - i,
{
    if i < 0 || i >= s.len() {
        Seq::empty()
    } else if ctx_at(s, i) {
        seq![s.subrange(i + 1, token_end(s, i + 1))] + collect_ctx(s, i + 1)
    } else {
        collect_ctx(s, i + 1)
    }
}

/// Every `@` token of the line, in order of appearance, duplicates kept.
pub open spec fn spec_contexts(s: Seq<char>) -> Seq<Seq<char>> {
    collect_ctx(s, 0)
}

/// A boundary-preceded, valid `YYYY-MM-DD` token sits at `i`.
pub open spec fn date_at(s: Seq<char>, i: int) -> bool {
    boundary(s, i) && date_ok_at(s, i)
}

pub open spec fn find_date(s: Seq<char>, i: int) -> Option<int>
    decreases s.len() - i,
{
    if i < 0 || i >= s.len() {
        None
    } else if date_at(s, i) {
        Some(i)
    } else {
        find_date(s, i + 1)
    }
}

/// The first two date tokens of the line, as the record's two slots.
pub open spec fn spec_date_slots(s: Seq<char>) -> (Option<Date>, Option<Date>) {
    match find_date(s, 0) {
        None => (None, None),
        Some(i) => (
            Some(date_value_at(s, i)),
            match find_date(s, i + 1) {
                None => None,
                Some(j) => Some(date_value_at(s, j)),
            },
        ),
    }
}

/// A boundary-preceded `due:` marker sits at `i`.
pub open spec fn due_marker_at(s: Seq<char>, i: int) -> bool {
    &&& 0 <= i
    &&& i + 4 <= s.len()
    &&& s[i] == 'd'
    &&& s[i + 1] == 'u'
    &&& s[i + 2] == 'e'
    &&& s[i + 3] == ':'
    &&& boundary(s, i)
}

/// A `due:YYYY-MM-DD` token with a valid literal date sits at `i`.
pub open spec fn due_at(s: Seq<char>, i: int) -> bool {
    due_marker_at(s, i) && date_ok_at(s, i + 4)
}

pub open spec fn find_due(s: Seq<char>, i: int) -> Option<int>
    decreases s.len() - i,
{
    if i < 0 || i >= s.len() {
        None
    } else if due_at(s, i) {
        Some(i)
    } else {
        find_due(s, i + 1)
    }
}

/// The literal date of the first `due:YYYY-MM-DD` token, if any.
pub open spec fn spec_due(s: Seq<char>) -> Option<Date> {
    match find_due(s, 0) {
        Some(i) => Some(date_value_at(s, i + 4)),
        None => None,
    }
}

/// A `due:` marker followed by a non-empty value token sits at `i`.
pub open spec fn duetok_at(s: Seq<char>, i: int) -> bool {
    due_marker_at(s, i) && i + 4 < s.len() && !is_ws(s[i + 4])
}

pub open spec fn find_duetok(s: Seq<char>, i: int) -> Option<int>
    decreases s.len() - i,
{
    if i < 0 || i >= s.len() {
        None
    } else if duetok_at(s, i) {
        Some(i)
    } else {
        find_duetok(s, i + 1)
    }
}

/// The value token of the first `due:` marker of a construction command.
pub open spec fn spec_due_value(s: Seq<char>) -> Option<Seq<char>> {
    match find_duetok(s, 0) {
        Some(i) => Some(s.subrange(i + 4, token_end(s, i + 4))),
        None => None,
    }
}

pub open spec fn kw_today() -> Seq<char> {
    seq!['t', 'o', 'd', 'a', 'y']
}

pub open spec fn kw_yesterday() -> Seq<char> {
    seq!['y', 'e', 's', 't', 'e', 'r', 'd', 'a', 'y']
}

pub open spec fn kw_tomorrow() -> Seq<char> {
    seq!['t', 'o', 'm', 'o', 'r', 'r', 'o', 'w']
}

pub open spec fn kw_weekend() -> Seq<char> {
    seq!['w', 'e', 'e', 'k', 'e', 'n', 'd']
}

/// Resolution of a construction command's `due:` value against `today`:
/// a literal date parses directly, the keywords resolve relative to `today`,
/// `weekend` lands on the coming Friday, and anything else is malformed.
pub open spec fn spec_resolve_due(s: Seq<char>, today: Date) -> Result<Option<Date>, ParseError> {
    match spec_due_value(s) {
        None => Ok(None),
        Some(v) => if v == kw_today() {
            Ok(Some(today))
        } else if v == kw_yesterday() {
            Ok(Some(spec_prev_day(today)))
        } else if v == kw_tomorrow() {
            Ok(Some(spec_next_day(today)))
        } else if v == kw_weekend() {
            Ok(Some(spec_add_days(today, spec_weekend_delta(spec_weekday(today)) as nat)))
        } else if v.len() == 10 && date_ok_at(v, 0) {
            Ok(Some(date_value_at(v, 0)))
        } else {
            Err(ParseError::MalformedDueDate)
        },
    }
}

/// Whether a construction command is rejected; this does not depend on the
/// reference date.
pub open spec fn spec_new_rejected(s: Seq<char>) -> bool {
    match spec_due_value(s) {
        None => false,
        Some(v) => !(v == kw_today() || v == kw_yesterday() || v == kw_tomorrow() || v
            == kw_weekend() || (v.len() == 10 && date_ok_at(v, 0))),
    }
}

/// The mathematical image of a task.
#[verifier::ext_equal]
pub ghost struct TaskView {
    pub done: bool,
    pub name: Seq<char>,
    pub priority: Option<char>,
    pub project: Option<Seq<char>>,
    pub context: Seq<Seq<char>>,
    pub create: Option<Date>,
    pub complete: Option<Date>,
    pub due: Option<Date>,
}

/// A single to-do item.
#[derive(Debug)]
pub struct Task {
    pub done: bool,
    pub name: String,
    pub priority: Option<char>,
    pub project: Option<String>,
    pub context: Vec<String>,
    pub create: Option<Date>,
    pub complete: Option<Date>,
    pub due: Option<Date>,
}

impl View for Task {
    type V = TaskView;

    open spec fn view(&self) -> TaskView {
        TaskView {
            done: self.done,
            name: self.name@,
            priority: self.priority,
            project: match self.project {
                Some(p) => Some(p@),
                None => None,
            },
            context: self.context.deep_view(),
            create: self.create,
            complete: self.complete,
            due: self.due,
        }
    }
}

impl DeepView for Task {
    type V = TaskView;

    open spec fn deep_view(&self) -> TaskView {
        self.view()
    }
}

/// The task a record line denotes: every field recognizer runs over the
/// whole line independently, and the date slots are assigned by the
/// completion marker (a completed record lists its completion date first).
pub open spec fn spec_from_string(s: Seq<char>) -> TaskView {
    let done = spec_done(s);
    let slots = spec_date_slots(s);
    TaskView {
        done: done,
        name: spec_name(s),
        priority: spec_priority(s),
        project: spec_project(s),
        context: spec_contexts(s),
        create: if done {
            slots.1
        } else {
            slots.0
        },
        complete: if done {
            slots.0
        } else {
            None
        },
        due: spec_due(s),
    }
}

fn scan_pri(s: &Vec<char>) -> (r: Option<char>)
    ensures
        r == spec_priority(s@),
{
    let n = s.len();
    let mut i: usize = 0;
    loop
        invariant
            i <= n,
            n == s@.len(),
            find_pri(s@, 0) == find_pri(s@, i as int),
        decreases n - i,
    {
        if n < 3 || i > n - 3 {
            return None;
        }
        if s[i] == '(' && 'A' <= s[i + 1] && s[i + 1] <= 'Z' && s[i + 2] == ')' {
            return Some(s[i + 1]);
        }
        proof {
            assert(!pri_at(s@, i as int));
        }
        i += 1;
    }
}

fn scan_quote(s: &Vec<char>) -> (r: Option<usize>)
    ensures
        (match r {
            Some(i) => find_quote(s@, 0) == Some(i as int) && quote_at(s@, i as int),
            None => find_quote(s@, 0) is None,
        }),
{
    let n = s.len();
    let mut i: usize = 0;
    loop
        invariant
            i <= n,
            n == s@.len(),
            find_quote(s@, 0) == find_quote(s@, i as int),
        decreases n - i,
    {
        if i >= n {
            return None;
        }
        if s[i] == '"' && (i == 0 || ws(s[i - 1])) {
            return Some(i);
        }
        proof {
            assert(!quote_at(s@, i as int));
        }
        i += 1;
    }
}

fn scan_last_quote(s: &Vec<char>) -> (r: Option<usize>)
    ensures
        (match r {
            Some(j) => last_quote(s@, s@.len() as int) == Some(j as int) && j < s@.len(),
            None => last_quote(s@, s@.len() as int) is None,
        }),
{
    let mut i: usize = s.len();
    loop
        invariant
            i <= s@.len(),
            last_quote(s@, s@.len() as int) == last_quote(s@, i as int),
        decreases i,
    {
        if i == 0 {
            return None;
        }
        if s[i - 1] == '"' {
            return Some(i - 1);
        }
        i -= 1;
    }
}

fn scan_token_end(s: &Vec<char>, start: usize) -> (r: usize)
    requires
        start <= s@.len(),
    ensures
        r == token_end(s@, start as int),
        start <= r <= s@.len(),
{
    let n = s.len();
    let mut i = start;
    loop
        invariant
            start <= i <= n,
            n == s@.len(),
            token_end(s@, start as int) == token_end(s@, i as int),
        decreases n - i,
    {
        if i >= n {
            return i;
        }
        if ws(s[i]) {
            return i;
        }
        i += 1;
    }
}

fn vec_range(s: &Vec<char>, a: usize, b: usize) -> (r: Vec<char>)
    requires
        a <= b <= s@.len(),
    ensures
        r@ == s@.subrange(a as int, b as int),
{
    let mut out: Vec<char> = Vec::new();
    let mut i = a;
    while i < b
        invariant
            a <= i <= b <= s@.len(),
            out@ == s@.subrange(a as int, i as int),
        decreases b - i,
    {
        out.push(s[i]);
        proof {
            assert(out@ =~= s@.subrange(a as int, i + 1 as int));
        }
        i += 1;
    }
    out
}

fn scan_name(s: &Vec<char>) -> (r: String)
    ensures
        r@ == spec_name(s@),
{
    match scan_quote(s) {
        None => {
            let r = String::new();
            proof {
                assert(r@ =~= spec_name(s@));
            }
            r
        },
        Some(i) => match scan_last_quote(s) {
            Some(j) => if j > i {
                crate::chars::string_range(s, i + 1, j)
            } else {
                let r = String::new();
                proof {
                    assert(r@ =~= spec_name(s@));
                }
                r
            },
            None => {
                let r = String::new();
                proof {
                    assert(r@ =~= spec_name(s@));
                }
                r
            },
        },
    }
}

fn scan_project(s: &Vec<char>) -> (r: Option<String>)
    ensures
        (match r {
            Some(p) => spec_project(s@) == Some(p@),
            None => spec_project(s@) is None,
        }),
{
    let n = s.len();
    let mut i: usize = 0;
    loop
        invariant
            i <= n,
            n == s@.len(),
            find_proj(s@, 0) == find_proj(s@, i as int),
        decreases n - i,
    {
        if i >= n {
            return None;
        }
        if s[i] == '+' && (i == 0 || ws(s[i - 1])) && i + 1 < n && !ws(s[i + 1]) {
            let e = scan_token_end(s, i + 1);
            return Some(crate::chars::string_range(s, i + 1, e));
        }
        proof {
            assert(!proj_at(s@, i as int));
        }
        i += 1;
    }
}

fn scan_contexts(s: &Vec<char>) -> (r: Vec<String>)
    ensures
        r.deep_view() == spec_contexts(s@),
{
    let n = s.len();
    let mut out: Vec<String> = Vec::new();
    let mut i: usize = 0;
    loop
        invariant
            i <= n,
            n == s@.len(),
            collect_ctx(s@, 0) == out.deep_view() + collect_ctx(s@, i as int),
        decreases n - i,
    {
        if i >= n {
            proof {
                assert(collect_ctx(s@, i as int) =~= Seq::<Seq<char>>::empty());
                assert(out.deep_view() + collect_ctx(s@, i as int) =~= out.deep_view());
            }
            return out;
        }
        if s[i] == '@' && (i == 0 || ws(s[i - 1])) && i + 1 < n && !ws(s[i + 1]) {
            let e = scan_token_end(s, i + 1);
            let tok = crate::chars::string_range(s, i + 1, e);
            let ghost pre = out.deep_view();
            out.push(tok);
            proof {
                assert(out.deep_view() =~= pre.push(s@.subrange(i + 1, token_end(s@, i + 1))));
                assert(out.deep_view() + collect_ctx(s@, i + 1 as int) =~= pre + collect_ctx(
                    s@,
                    i as int,
                ));
            }
        } else {
            proof {
                assert(!ctx_at(s@, i as int));
            }
        }
        i += 1;
    }
}

fn find_date_exec(s: &Vec<char>, start: usize) -> (r: Option<usize>)
    requires
        start <= s@.len(),
    ensures
        (match r {
            Some(i) => find_date(s@, start as int) == Some(i as int) && date_at(s@, i as int)
                && start <= i,
            None => find_date(s@, start as int) is None,
        }),
{
    let n = s.len();
    let mut i = start;
    loop
        invariant
            start <= i <= n,
            n == s@.len(),
            find_date(s@, start as int) == find_date(s@, i as int),
        decreases n - i,
    {
        if i >= n {
            return None;
        }
        if i == 0 || ws(s[i - 1]) {
            if read_date_at(s, i).is_some() {
                return Some(i);
            }
        }
        proof {
            assert(!date_at(s@, i as int));
        }
        i += 1;
    }
}

fn date_value_exec(s: &Vec<char>, i: usize) -> (r: Date)
    requires
        date_ok_at(s@, i as int),
    ensures
        r == date_value_at(s@, i as int),
{
    match read_date_at(s, i) {
        Some(d) => d,
        None => {
            proof {
                assert(false);
            }
            Date { year: 0, month: 1, day: 1 }
        },
    }
}

fn scan_date_slots(s: &Vec<char>) -> (r: (Option<Date>, Option<Date>))
    ensures
        r == spec_date_slots(s@),
{
    match find_date_exec(s, 0) {
        None => (None, None),
        Some(i) => {
            let n = s.len();
            assert(i + 10 <= n);
            let first = date_value_exec(s, i);
            let second = match find_date_exec(s, i + 1) {
                None => None,
                Some(j) => Some(date_value_exec(s, j)),
            };
            (Some(first), second)
        },
    }
}

fn find_due_exec(s: &Vec<char>) -> (r: Option<usize>)
    ensures
        (match r {
            Some(i) => find_due(s@, 0) == Some(i as int) && due_at(s@, i as int),
            None => find_due(s@, 0) is None,
        }),
{
    let n = s.len();
    let mut i: usize = 0;
    loop
        invariant
            i <= n,
            n == s@.len(),
            find_due(s@, 0) == find_due(s@, i as int),
        decreases n - i,
    {
        if i >= n {
            return None;
        }
        let marker = n >= 4 && i <= n - 4 && s[i] == 'd' && s[i + 1] == 'u' && s[i + 2] == 'e'
            && s[i + 3] == ':' && (i == 0 || ws(s[i - 1]));
        if marker {
            if read_date_at(s, i + 4).is_some() {
                return Some(i);
            }
        }
        proof {
            assert(!due_at(s@, i as int));
        }
        i += 1;
    }
}

fn scan_due(s: &Vec<char>) -> (r: Option<Date>)
    ensures
        r == spec_due(s@),
{
    match find_due_exec(s) {
        None => None,
        Some(i) => {
            let n = s.len();
            assert(i + 14 <= n);
            Some(date_value_exec(s, i + 4))
        },
    }
}

fn find_duetok_exec(s: &Vec<char>) -> (r: Option<usize>)
    ensures
        (match r {
            Some(i) => find_duetok(s@, 0) == Some(i as int) && duetok_at(s@, i as int),
            None => find_duetok(s@, 0) is None,
        }),
{
    let n = s.len();
    let mut i: usize = 0;
    loop
        invariant
            i <= n,
            n == s@.len(),
            find_duetok(s@, 0) == find_duetok(s@, i as int),
        decreases n - i,
    {
        if i >= n {
            return None;
        }
        let marker = n >= 4 && i <= n - 4 && s[i] == 'd' && s[i + 1] == 'u' && s[i + 2] == 'e'
            && s[i + 3] == ':' && (i == 0 || ws(s[i - 1]));
        if marker && i + 4 < n && !ws(s[i + 4]) {
            return Some(i);
        }
        proof {
            assert(!duetok_at(s@, i as int));
        }
        i += 1;
    }
}

fn is_kw_today(v: &Vec<char>) -> (r: bool)
    ensures
        r == (v@ == kw_today()),
{
    let r = v.len() == 5 && v[0] == 't' && v[1] == 'o' && v[2] == 'd' && v[3] == 'a' && v[4] == 'y';
    proof {
        if r {
            assert(v@ =~= kw_today());
        }
    }
    r
}

fn is_kw_yesterday(v: &Vec<char>) -> (r: bool)
    ensures
        r == (v@ == kw_yesterday()),
{
    let r = v.len() == 9 && v[0] == 'y' && v[1] == 'e' && v[2] == 's' && v[3] == 't' && v[4] == 'e'
        && v[5] == 'r' && v[6] == 'd' && v[7] == 'a' && v[8] == 'y';
    proof {
        if r {
            assert(v@ =~= kw_yesterday());
        }
    }
    r
}

fn is_kw_tomorrow(v: &Vec<char>) -> (r: bool)
    ensures
        r == (v@ == kw_tomorrow()),
{
    let r = v.len() == 8 && v[0] == 't' && v[1] == 'o' && v[2] == 'm' && v[3] == 'o' && v[4] == 'r'
        && v[5] == 'r' && v[6] == 'o' && v[7] == 'w';
    proof {
        if r {
            assert(v@ =~= kw_tomorrow());
        }
    }
    r
}

fn is_kw_weekend(v: &Vec<char>) -> (r: bool)
    ensures
        r == (v@ == kw_weekend()),
{
    let r = v.len() == 7 && v[0] == 'w' && v[1] == 'e' && v[2] == 'e' && v[3] == 'k' && v[4] == 'e'
        && v[5] == 'n' && v[6] == 'd';
    proof {
        if r {
            assert(v@ =~= kw_weekend());
        }
    }
    r
}

/// The task a construction command denotes, against the reference date
/// `today`: never completed, no creation date, the completion date seeded to
/// `today`, and the due date resolved by `spec_resolve_due`.
pub open spec fn spec_new(s: Seq<char>, today: Date) -> Result<TaskView, ParseError> {
    match spec_resolve_due(s, today) {
        Err(e) => Err(e),
        Ok(due) => Ok(
            TaskView {
                done: false,
                name: spec_name(s),
                priority: spec_priority(s),
                project: spec_project(s),
                context: spec_contexts(s),
                create: None,
                complete: Some(today),
                due: due,
            },
        ),
    }
}

proof fn lemma_no_quote_find(s: Seq<char>, i: int)
    requires
        forall|k: int| 0 <= k < s.len() ==> (#[trigger] s[k]) != '"',
    ensures
        find_quote(s, i) is None,
    decreases s.len() - i,
{
    if 0 <= i < s.len() {
        lemma_no_quote_find(s, i + 1);
    }
}

/// A line with no double quote in it yields the empty name.
pub proof fn lemma_no_quote_no_name(s: Seq<char>)
    requires
        forall|k: int| 0 <= k < s.len() ==> (#[trigger] s[k]) != '"',
    ensures
        spec_name(s) == Seq::<char>::empty(),
{
    lemma_no_quote_find(s, 0);
}

proof fn lemma_no_at_collect(s: Seq<char>, i: int)
    requires
        forall|k: int| 0 <= k < s.len() ==> (#[trigger] s[k]) != '@',
    ensures
        collect_ctx(s, i) == Seq::<Seq<char>>::empty(),
    decreases s.len() - i,
{
    if 0 <= i < s.len() {
        lemma_no_at_collect(s, i + 1);
    }
}

/// A line with no `@` in it yields the empty context sequence — absence is
/// the empty sequence, never a missing value.
pub proof fn lemma_no_at_no_context(s: Seq<char>)
    requires
        forall|k: int| 0 <= k < s.len() ==> (#[trigger] s[k]) != '@',
    ensures
        spec_contexts(s) == Seq::<Seq<char>>::empty(),
{
    lemma_no_at_collect(s, 0);
}

/// All dates a task carries lie in the range the grammar can write.
pub open spec fn dates_valid(t: TaskView) -> bool {
    &&& (t.create matches Some(d) ==> d.valid())
    &&& (t.complete matches Some(d) ==> d.valid())
    &&& (t.due matches Some(d) ==> d.valid())
}

/// A date slot serializes as `YYYY-MM-DD ` when filled and as nothing when
/// empty.
pub open spec fn opt_date_seg(d: Option<Date>) -> Seq<char> {
    match d {
        Some(d0) => spec_date_seq(d0) + seq![' '],
        None => Seq::empty(),
    }
}

/// The context tokens serialize as `@c ` each, in order.
pub open spec fn ctx_seg(cs: Seq<Seq<char>>) -> Seq<char>
    decreases cs.len(),
{
    if cs.len() == 0 {
        Seq::empty()
    } else {
        seq!['@'] + cs[0] + seq![' '] + ctx_seg(cs.drop_first())
    }
}

pub open spec fn done_seg(done: bool) -> Seq<char> {
    if done {
        seq!['x', ' ']
    } else {
        Seq::empty()
    }
}

pub open spec fn pri_seg(p: Option<char>) -> Seq<char> {
    match p {
        Some(c) => seq!['(', c, ')', ' '],
        None => Seq::empty(),
    }
}

/// The date slots of a record line: a completed record lists its completion
/// date before its creation date; an open record lists the creation date
/// only.
pub open spec fn dates_seg(done: bool, complete: Option<Date>, create: Option<Date>) -> Seq<char> {
    if done {
        opt_date_seg(complete) + opt_date_seg(create)
    } else {
        opt_date_seg(create)
    }
}

pub open spec fn proj_seg(p: Option<Seq<char>>) -> Seq<char> {
    match p {
        Some(q) => seq!['+'] + q + seq![' '],
        None => Seq::empty(),
    }
}

pub open spec fn due_seg(d: Option<Date>) -> Seq<char> {
    match d {
        Some(d0) => seq!['d', 'u', 'e', ':'] + spec_date_seq(d0) + seq![' '],
        None => Seq::empty(),
    }
}

pub open spec fn name_seg(n: Seq<char>) -> Seq<char> {
    seq!['"'] + n + seq!['"']
}

/// The canonical record line of a task: completion marker, priority, the
/// date slots (completion before creation on a completed record), project,
/// contexts, `due:` date, and the quoted name last.
pub open spec fn spec_serialize(t: TaskView) -> Seq<char> {
    done_seg(t.done) + pri_seg(t.priority) + dates_seg(t.done, t.complete, t.create) + proj_seg(
        t.project,
    ) + ctx_seg(t.context) + due_seg(t.due) + name_seg(t.name)
}

fn push_done_seg(out: &mut String, done: bool)
    ensures
        final(out)@ == old(out)@ + done_seg(done),
{
    if done {
        push_char(out, 'x');
        push_char(out, ' ');
    }
    proof {
        assert(final(out)@ =~= old(out)@ + done_seg(done));
    }
}

fn push_pri_seg(out: &mut String, p: Option<char>)
    ensures
        final(out)@ == old(out)@ + pri_seg(p),
{
    match p {
        Some(c) => {
            push_char(out, '(');
            push_char(out, c);
            push_char(out, ')');
            push_char(out, ' ');
        },
        None => {},
    }
    proof {
        assert(final(out)@ =~= old(out)@ + pri_seg(p));
    }
}

fn push_opt_date(out: &mut String, d: &Option<Date>)
    requires
        *d matches Some(d0) ==> d0.valid(),
    ensures
        final(out)@ == old(out)@ + opt_date_seg(*d),
{
    match d {
        Some(d0) => {
            push_date(out, d0);
            push_char(out, ' ');
            proof {
                assert(final(out)@ =~= old(out)@ + opt_date_seg(*d));
            }
        },
        None => {
            proof {
                assert(final(out)@ =~= old(out)@ + opt_date_seg(*d));
            }
        },
    }
}

fn push_dates_seg(out: &mut String, done: bool, complete: &Option<Date>, create: &Option<Date>)
    requires
        *complete matches Some(d0) ==> d0.valid(),
        *create matches Some(d0) ==> d0.valid(),
    ensures
        final(out)@ == old(out)@ + dates_seg(done, *complete, *create),
{
    if done {
        push_opt_date(out, complete);
        push_opt_date(out, create);
        proof {
            assert(final(out)@ =~= old(out)@ + dates_seg(done, *complete, *create));
        }
    } else {
        push_opt_date(out, create);
    }
}

fn push_proj_seg(out: &mut String, p: &Option<String>)
    ensures
        final(out)@ == old(out)@ + proj_seg(
            match *p {
                Some(q) => Some(q@),
                None => None,
            },
        ),
{
    match p {
        Some(q) => {
            push_char(out, '+');
            out.append(q.as_str());
            push_char(out, ' ');
            proof {
                assert(final(out)@ =~= old(out)@ + (seq!['+'] + q@ + seq![' ']));
            }
        },
        None => {},
    }
}

fn push_ctx_segs(out: &mut String, cs: &Vec<String>)
    ensures
        final(out)@ == old(out)@ + ctx_seg(cs.deep_view()),
{
    let ghost cv = cs.deep_view();
    proof {
        assert(cv.skip(0) =~= cv);
    }
    let mut k: usize = 0;
    while k < cs.len()
        invariant
            k <= cs.len(),
            cv == cs.deep_view(),
            cv.len() == cs.len(),
            out@ + ctx_seg(cv.skip(k as int)) == old(out)@ + ctx_seg(cv),
        decreases cs.len() - k,
    {
        let ghost pre = out@;
        push_char(out, '@');
        out.append(cs[k].as_str());
        push_char(out, ' ');
        proof {
            assert(cv[k as int] == cs@[k as int]@);
            assert(cv.skip(k as int).len() > 0);
            assert(cv.skip(k as int)[0] == cv[k as int]);
            assert(cv.skip(k as int).drop_first() =~= cv.skip(k + 1));
            assert(ctx_seg(cv.skip(k as int)) == seq!['@'] + cv[k as int] + seq![' '] + ctx_seg(
                cv.skip(k + 1),
            ));
            assert(out@ =~= pre + (seq!['@'] + cv[k as int] + seq![' ']));
            assert(out@ + ctx_seg(cv.skip(k + 1)) =~= pre + ctx_seg(cv.skip(k as int)));
        }
        k += 1;
    }
    proof {
        assert(cv.skip(cv.len() as int) =~= Seq::<Seq<char>>::empty());
        assert(final(out)@ =~= old(out)@ + ctx_seg(cv));
    }
}

fn push_due_seg(out: &mut String, d: &Option<Date>)
    requires
        *d matches Some(d0) ==> d0.valid(),
    ensures
        final(out)@ == old(out)@ + due_seg(*d),
{
    match d {
        Some(d0) => {
            push_char(out, 'd');
            push_char(out, 'u');
            push_char(out, 'e');
            push_char(out, ':');
            push_date(out, d0);
            push_char(out, ' ');
            proof {
                assert(final(out)@ =~= old(out)@ + due_seg(*d));
            }
        },
        None => {
            proof {
                assert(final(out)@ =~= old(out)@ + due_seg(*d));
            }
        },
    }
}

fn push_name_seg(out: &mut String, n: &String)
    ensures
        final(out)@ == old(out)@ + name_seg(n@),
{
    push_char(out, '"');
    out.append(n.as_str());
    push_char(out, '"');
    proof {
        assert(final(out)@ =~= old(out)@ + name_seg(n@));
    }
}

/// Whether a constructed result matches the construction semantics for the
/// given reference date.
pub open spec fn spec_new_matches(s: Seq<char>, today: Date, r: Result<Task, ParseError>) -> bool {
    match spec_new(s, today) {
        Ok(v) => r matches Ok(t) && t@ == v,
        Err(e) => r matches Err(e2) && e2 == e,
    }
}

impl Task {
    /// Parses a record line. Parsing never fails: absent fields come out as
    /// `None`, an empty name, or no contexts.
    pub fn from_string(txt: &str) -> (r: Task)
        ensures
            r@ == spec_from_string(txt@),
    {
        let s = str_to_chars(txt);
        let done = s.len() >= 2 && s[0] == 'x' && ws(s[1]);
        let name = scan_name(&s);
        let priority = scan_pri(&s);
        let project = scan_project(&s);
        let context = scan_contexts(&s);
        let slots = scan_date_slots(&s);
        let due = scan_due(&s);
        let (create, complete) = if done {
            (slots.1, slots.0)
        } else {
            (slots.0, None)
        };
        let r = Task { done, name, priority, project, context, create, complete, due };
        proof {
            assert(r@ =~~= spec_from_string(txt@));
        }
        r
    }

    /// Interprets a user-typed creation command against the reference date
    /// `today`: a malformed `due:` value is the one rejected input.
    pub fn new_on(txt: &str, today: Date) -> (r: Result<Task, ParseError>)
        requires
            today.valid(),
        ensures
            spec_new_matches(txt@, today, r),
    {
        let s = str_to_chars(txt);
        let due: Option<Date>;
        match find_duetok_exec(&s) {
            None => {
                due = None;
            },
            Some(i) => {
                let e = scan_token_end(&s, i + 4);
                let v = vec_range(&s, i + 4, e);
                if is_kw_today(&v) {
                    due = Some(today);
                } else if is_kw_yesterday(&v) {
                    due = Some(today.pred());
                } else if is_kw_tomorrow(&v) {
                    due = Some(today.succ());
                } else if is_kw_weekend(&v) {
                    let w = today.weekday();
                    let delta = if w <= 5 {
                        5 - w
                    } else {
                        12 - w
                    };
                    due = Some(today.add_days(delta));
                } else if v.len() == 10 {
                    match read_date_at(&v, 0) {
                        Some(d) => {
                            due = Some(d);
                        },
                        None => {
                            return Err(ParseError::MalformedDueDate);
                        },
                    }
                } else {
                    return Err(ParseError::MalformedDueDate);
                }
            },
        }
        let name = scan_name(&s);
        let priority = scan_pri(&s);
        let project = scan_project(&s);
        let context = scan_contexts(&s);
        let r = Task {
            done: false,
            name,
            priority,
            project,
            context,
            create: None,
            complete: Some(today),
            due,
        };
        proof {
            assert(r@ =~~= spec_new(txt@, today)->Ok_0);
        }
        Ok(r)
    }

    /// Interprets a user-typed creation command against the current date.
    pub fn new(txt: &str) -> (r: Result<Task, ParseError>)
        ensures
            exists|t: Date| t.valid() && #[trigger] spec_new_matches(txt@, t, r),
            r is Err <==> spec_new_rejected(txt@),
    {
        let t0 = today();
        let r = Task::new_on(txt, t0);
        proof {
            assert(spec_new_matches(txt@, t0, r));
        }
        r
    }

    /// Marks the task completed as of the given date.
    pub fn complete_on(&mut self, d: Date)
        ensures
            final(self)@ == (TaskView { done: true, complete: Some(d), ..old(self)@ }),
    {
        self.done = true;
        self.complete = Some(d);
        proof {
            assert(self@ =~~= (TaskView { done: true, complete: Some(d), ..old(self)@ }));
        }
    }

    /// Marks the task completed as of the current date.
    pub fn complete(&mut self)
        ensures
            exists|d: Date|
                #[trigger] d.valid() && final(self)@ == (TaskView {
                    done: true,
                    complete: Some(d),
                    ..old(self)@
                }),
    {
        let t0 = today();
        self.complete_on(t0);
    }

    /// Clears the completion marker and the completion date.
    pub fn incomplete(&mut self)
        ensures
            final(self)@ == (TaskView { done: false, complete: None, ..old(self)@ }),
    {
        self.done = false;
        self.complete = None;
        proof {
            assert(self@ =~~= (TaskView { done: false, complete: None, ..old(self)@ }));
        }
    }

    /// Writes the task back as a canonical record line.
    pub fn serialize(&self) -> (r: String)
        requires
            dates_valid(self@),
        ensures
            r@ == spec_serialize(self@),
    {
        let ghost t = self@;
        let mut out = String::new();
        push_done_seg(&mut out, self.done);
        push_pri_seg(&mut out, self.priority);
        push_dates_seg(&mut out, self.done, &self.complete, &self.create);
        push_proj_seg(&mut out, &self.project);
        push_ctx_segs(&mut out, &self.context);
        push_due_seg(&mut out, &self.due);
        push_name_seg(&mut out, &self.name);
        proof {
            assert(out@ =~= spec_serialize(t));
        }
        out
    }
}

} // verus!
