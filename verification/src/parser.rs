use vstd::prelude::*;

use crate::chars::{str_to_chars, string_range};

verus! {

/// What the sequential prefix parser of a record line yields: each stage
/// consumes an exact prefix shape when it is present, and the tail of the
/// line is handed back unconsumed.
pub struct Parsed {
    pub done: bool,
    pub priority: Option<char>,
    pub created: Option<String>,
    pub finished: Option<String>,
    pub project: Option<String>,
    pub rest: String,
}

/// The mathematical image of a parse result.
#[verifier::ext_equal]
pub ghost struct ParsedView {
    pub done: bool,
    pub priority: Option<char>,
    pub created: Option<Seq<char>>,
    pub finished: Option<Seq<char>>,
    pub project: Option<Seq<char>>,
    pub rest: Seq<char>,
}

impl View for Parsed {
    type V = ParsedView;

    open spec fn view(&self) -> ParsedView {
        ParsedView {
            done: self.done,
            priority: self.priority,
            created: match self.created {
                Some(c) => Some(c@),
                None => None,
            },
            finished: match self.finished {
                Some(c) => Some(c@),
                None => None,
            },
            project: match self.project {
                Some(c) => Some(c@),
                None => None,
            },
            rest: self.rest@,
        }
    }
}

/// A completion tag `x ` sits at `i`; consumes both characters.
pub open spec fn spec_combine_tag(s: Seq<char>, i: int) -> Option<int> {
    if 0 <= i && i + 2 <= s.len() && s[i] == 'x' && s[i + 1] == ' ' {
        Some(i + 2)
    } else {
        None
    }
}

/// A priority tag `(X) ` sits at `i`: any single character between the
/// parentheses; consumes all four characters.
pub open spec fn spec_combine_priority(s: Seq<char>, i: int) -> Option<(int, char)> {
    if 0 <= i && i + 4 <= s.len() && s[i] == '(' && s[i + 2] == ')' && s[i + 3] == ' ' {
        Some((i + 4, s[i + 1]))
    } else {
        None
    }
}

/// A dashed date shape `YYYY-MM-DD ` sits at `i`: only the dashes and the
/// trailing separator are demanded; the four leading characters are handed
/// back as the stage's value.
pub open spec fn spec_combine_date(s: Seq<char>, i: int) -> Option<(int, Seq<char>)> {
    if 0 <= i && i + 11 <= s.len() && s[i + 4] == '-' && s[i + 7] == '-' && s[i + 10] == ' ' {
        Some((i + 11, s.subrange(i, i + 4)))
    } else {
        None
    }
}

/// First position at or after `i` where the literal marker `@|+` starts.
pub open spec fn find_marker(s: Seq<char>, i: int) -> Option<int>
    decreases s.len() - i,
{
    if i < 0 || i + 3 > s.len() {
        None
    } else if s[i] == '@' && s[i + 1] == '|' && s[i + 2] == '+' {
        Some(i)
    } else {
        find_marker(s, i + 1)
    }
}

/// Everything from `i` up to the literal marker `@|+`, which stays
/// unconsumed; nothing when the marker never occurs.
pub open spec fn spec_combine_project(s: Seq<char>, i: int) -> Option<(int, Seq<char>)> {
    match find_marker(s, i) {
        Some(j) => Some((j, s.subrange(i, j))),
        None => None,
    }
}

/// The whole sequential parse: optional tag, optional priority, two
/// optional date shapes, an optional project cut, then the rest of the
/// line.
pub open spec fn spec_parse(s: Seq<char>) -> ParsedView {
    let (i1, done) = match spec_combine_tag(s, 0) {
        Some(j) => (j, true),
        None => (0, false),
    };
    let (i2, pri) = match spec_combine_priority(s, i1) {
        Some((j, c)) => (j, Some(c)),
        None => (i1, None),
    };
    let (i3, created) = match spec_combine_date(s, i2) {
        Some((j, y)) => (j, Some(y)),
        None => (i2, None),
    };
    let (i4, finished) = match spec_combine_date(s, i3) {
        Some((j, y)) => (j, Some(y)),
        None => (i3, None),
    };
    let (i5, project) = match spec_combine_project(s, i4) {
        Some((j, p)) => (j, Some(p)),
        None => (i4, None),
    };
    ParsedView {
        done: done,
        priority: pri,
        created: created,
        finished: finished,
        project: project,
        rest: s.subrange(i5, s.len() as int),
    }
}

fn combine_tag(s: &Vec<char>, i: usize) -> (r: Option<usize>)
    requires
        i <= s@.len(),
    ensures
        (match r {
            Some(j) => spec_combine_tag(s@, i as int) == Some(j as int) && j <= s@.len(),
            None => spec_combine_tag(s@, i as int) is None,
        }),
{
    let n = s.len();
    if n >= 2 && i <= n - 2 && s[i] == 'x' && s[i + 1] == ' ' {
        Some(i + 2)
    } else {
        None
    }
}

fn combine_priority(s: &Vec<char>, i: usize) -> (r: Option<(usize, char)>)
    requires
        i <= s@.len(),
    ensures
        (match r {
            Some((j, c)) => spec_combine_priority(s@, i as int) == Some((j as int, c)) && j
                <= s@.len(),
            None => spec_combine_priority(s@, i as int) is None,
        }),
{
    let n = s.len();
    if n >= 4 && i <= n - 4 && s[i] == '(' && s[i + 2] == ')' && s[i + 3] == ' ' {
        Some((i + 4, s[i + 1]))
    } else {
        None
    }
}

fn combine_date(s: &Vec<char>, i: usize) -> (r: Option<(usize, String)>)
    requires
        i <= s@.len(),
    ensures
        (match r {
            Some((j, y)) => spec_combine_date(s@, i as int) matches Some((j2, y2)) && j2 == j as int
                && y2 == y@ && j <= s@.len(),
            None => spec_combine_date(s@, i as int) is None,
        }),
{
    let n = s.len();
    if n >= 11 && i <= n - 11 && s[i + 4] == '-' && s[i + 7] == '-' && s[i + 10] == ' ' {
        Some((i + 11, string_range(s, i, i + 4)))
    } else {
        None
    }
}

fn combine_project(s: &Vec<char>, i: usize) -> (r: Option<(usize, String)>)
    requires
        i <= s@.len(),
    ensures
        (match r {
            Some((j, p)) => spec_combine_project(s@, i as int) matches Some((j2, p2)) && j2 == j
                as int && p2 == p@ && i <= j <= s@.len(),
            None => spec_combine_project(s@, i as int) is None,
        }),
{
    let n = s.len();
    let mut k = i;
    loop
        invariant
            i <= k <= n,
            n == s@.len(),
            find_marker(s@, i as int) == find_marker(s@, k as int),
        decreases n - k,
    {
        if n < 3 || k > n - 3 {
            return None;
        }
        if s[k] == '@' && s[k + 1] == '|' && s[k + 2] == '+' {
            return Some((k, string_range(s, i, k)));
        }
        k += 1;
    }
}

/// Parses the sequential prefix of a record line and hands back what is
/// left of it.
pub fn parse(txt: &str) -> (r: Parsed)
    ensures
        r@ == spec_parse(txt@),
{
    let s = str_to_chars(txt);
    let mut pos: usize = 0;
    let done = match combine_tag(&s, pos) {
        Some(j) => {
            pos = j;
            true
        },
        None => false,
    };
    let priority = match combine_priority(&s, pos) {
        Some((j, c)) => {
            pos = j;
            Some(c)
        },
        None => None,
    };
    let created = match combine_date(&s, pos) {
        Some((j, y)) => {
            pos = j;
            Some(y)
        },
        None => None,
    };
    let finished = match combine_date(&s, pos) {
        Some((j, y)) => {
            pos = j;
            Some(y)
        },
        None => None,
    };
    let project = match combine_project(&s, pos) {
        Some((j, p)) => {
            pos = j;
            Some(p)
        },
        None => None,
    };
    let rest = string_range(&s, pos, s.len());
    let r = Parsed { done, priority, created, finished, project, rest };
    proof {
        assert(r@ =~~= spec_parse(txt@));
    }
    r
}

} // verus!
