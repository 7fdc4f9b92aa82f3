//! The strict row parser for ads.txt: records must name a known relation,
//! variables must have a name, and a text all of whose lines are blank or
//! unknown is rejected.

use crate::parser::error::{Error, Result};
use crate::text::{
    find_char, lemma_find_props, spec_find, spec_split_lines, spec_split_once, spec_trim,
    split_newline, split_once_char, str_eq, trim_str,
};
use vstd::prelude::*;
use vstd::string::*;

verus! {

/// Type of Account/Relationship.
#[derive(Debug, PartialEq, Clone, Copy)]
pub enum Relation {
    Direct,
    Reseller,
}

impl DeepView for Relation {
    type V = Relation;

    open spec fn deep_view(&self) -> Relation {
        *self
    }
}

/// Represents data of the format `<FIELD #1>, <FIELD #2>, <FIELD #3>, <FIELD #4>`.
#[derive(Debug, PartialEq, Clone, Copy)]
pub struct Record<'a> {
    /// FIELD #1: Domain name of the advertising system.
    pub domain: &'a str,
    /// FIELD #2: Publisher's Account ID.
    pub account_id: &'a str,
    /// FIELD #3: Type of Account/Relationship.
    pub relation: Relation,
    /// FIELD #4: Certification Authority ID.
    pub authority_id: Option<&'a str>,
}

/// The mathematical value of a [`Record`].
pub struct RecordView {
    pub domain: Seq<char>,
    pub account_id: Seq<char>,
    pub relation: Relation,
    pub authority_id: Option<Seq<char>>,
}

impl<'a> DeepView for Record<'a> {
    type V = RecordView;

    open spec fn deep_view(&self) -> RecordView {
        RecordView {
            domain: self.domain@,
            account_id: self.account_id@,
            relation: self.relation,
            authority_id: self.authority_id.deep_view(),
        }
    }
}

/// Represents data of the format `<VARIABLE>=<VALUE>`.
#[derive(Debug, PartialEq, Clone, Copy)]
pub struct Variable<'a> {
    pub name: &'a str,
    pub value: &'a str,
}

/// The mathematical value of a [`Variable`].
pub struct VariableView {
    pub name: Seq<char>,
    pub value: Seq<char>,
}

impl<'a> DeepView for Variable<'a> {
    type V = VariableView;

    open spec fn deep_view(&self) -> VariableView {
        VariableView { name: self.name@, value: self.value@ }
    }
}

/// Represents the line data of ads.txt.
#[derive(Debug, PartialEq, Clone, Copy)]
pub enum Row<'a> {
    Comment(&'a str),
    Record(Record<'a>),
    Variable(Variable<'a>),
    Blank,
    Unknown(&'a str),
}

/// The mathematical value of a [`Row`].
pub enum RowView {
    Comment(Seq<char>),
    Record(RecordView),
    Variable(VariableView),
    Blank,
    Unknown(Seq<char>),
}

impl<'a> DeepView for Row<'a> {
    type V = RowView;

    open spec fn deep_view(&self) -> RowView {
        match *self {
            Row::Comment(c) => RowView::Comment(c@),
            Row::Record(r) => RowView::Record(r.deep_view()),
            Row::Variable(v) => RowView::Variable(v.deep_view()),
            Row::Blank => RowView::Blank,
            Row::Unknown(s) => RowView::Unknown(s@),
        }
    }
}

/// Represents ads.txt data: the records, and the variables grouped by name
/// in order of first appearance, each name holding its values in order.
#[derive(Debug, PartialEq)]
pub struct AdsTxt<'a> {
    pub records: Vec<Record<'a>>,
    pub variables: Vec<(&'a str, Vec<&'a str>)>,
}

/// The mathematical value of an [`AdsTxt`].
pub struct AdsTxtView {
    pub records: Seq<RecordView>,
    pub variables: Seq<(Seq<char>, Seq<Seq<char>>)>,
}

impl<'a> DeepView for AdsTxt<'a> {
    type V = AdsTxtView;

    open spec fn deep_view(&self) -> AdsTxtView {
        AdsTxtView { records: self.records.deep_view(), variables: self.variables.deep_view() }
    }
}

/// The index of the first occurrence of `c` in `s`, searching left to right.
pub fn char_at(a: char, s: &str) -> (r: Option<usize>)
    ensures
        match r {
            Some(i) => spec_find(s@, a) == Some(i as int),
            None => spec_find(s@, a) is None,
        },
{
    find_char(s, a)
}

/// A comment row: what follows the opening `#`, trimmed.
pub open spec fn spec_comment(s: Seq<char>) -> Option<Seq<char>> {
    if s.len() > 0 && s[0] == '#' {
        Some(spec_trim(s.subrange(1, s.len() as int)))
    } else {
        None
    }
}

/// Reads a comment row: the text after the `#`, trimmed.
pub fn comment<'a>(s: &'a str) -> (r: Option<&'a str>)
    ensures
        r.deep_view() == spec_comment(s@),
{
    let n = s.unicode_len();
    if n > 0 && s.get_char(0) == '#' {
        Some(trim_str(s.substring_char(1, n)))
    } else {
        None
    }
}

/// A comma-separated field may carry extension data after a `;`: the part
/// before it, trimmed.
pub open spec fn spec_strip_ext(f: Seq<char>) -> Seq<char> {
    match spec_find(f, ';') {
        Some(i) => spec_trim(f.subrange(0, i)),
        None => spec_trim(f),
    }
}

/// Reads [`spec_strip_ext`] of `f`.
fn strip_ext<'a>(f: &'a str) -> (r: &'a str)
    ensures
        r@ == spec_strip_ext(f@),
{
    match find_char(f, ';') {
        Some(i) => {
            proof {
                lemma_find_props(f@, ';');
            }
            trim_str(f.substring_char(0, i))
        },
        None => trim_str(f),
    }
}

/// The first four comma-separated fields of a row, trimmed; the third and
/// fourth lose any extension data; the first three must be present.
pub open spec fn spec_fields(s: Seq<char>) -> Option<
    (Seq<char>, Seq<char>, Seq<char>, Option<Seq<char>>),
> {
    match spec_split_once(s, ',') {
        None => None,
        Some((f1, t1)) => match spec_split_once(t1, ',') {
            None => None,
            Some((f2, t2)) => {
                let a = spec_trim(f1);
                let b = spec_trim(f2);
                match spec_split_once(t2, ',') {
                    None => Some((a, b, spec_strip_ext(t2), None)),
                    Some((f3, t3)) => {
                        let c = spec_strip_ext(f3);
                        match spec_split_once(t3, ',') {
                            None => Some((a, b, c, Some(spec_strip_ext(t3)))),
                            Some((f4, _)) => Some((a, b, c, Some(spec_strip_ext(f4)))),
                        }
                    },
                }
            },
        },
    }
}

/// Splits a row into its comma-separated fields.
pub fn fields<'a>(s: &'a str) -> (r: Option<(&'a str, &'a str, &'a str, Option<&'a str>)>)
    ensures
        r.deep_view() == spec_fields(s@),
{
    let (f1, t1) = match split_once_char(s, ',') {
        None => {
            return None;
        },
        Some(p) => p,
    };
    let (f2, t2) = match split_once_char(t1, ',') {
        None => {
            return None;
        },
        Some(p) => p,
    };
    let a = trim_str(f1);
    let b = trim_str(f2);
    match split_once_char(t2, ',') {
        None => Some((a, b, strip_ext(t2), None)),
        Some((f3, t3)) => {
            let c = strip_ext(f3);
            match split_once_char(t3, ',') {
                None => Some((a, b, c, Some(strip_ext(t3)))),
                Some((f4, _)) => Some((a, b, c, Some(strip_ext(f4)))),
            }
        },
    }
}

/// Reads `DIRECT` or `RESELLER`; anything else is an error.
pub fn relation(s: &str) -> (r: Result<Relation>)
    ensures
        s@ == "DIRECT"@ ==> r == Result::<Relation>::Ok(Relation::Direct),
        s@ == "RESELLER"@ ==> r == Result::<Relation>::Ok(Relation::Reseller),
        s@ != "DIRECT"@ && s@ != "RESELLER"@ ==> (r matches Err(e) && e.0@
            == "field #3 must be `DIRECT` or `RESELLER`"@),
{
    proof {
        reveal_strlit("DIRECT");
        reveal_strlit("RESELLER");
        assert("DIRECT"@ != "RESELLER"@) by {
            assert("DIRECT"@.len() == 6);
            assert("RESELLER"@.len() == 8);
        }
    }
    if str_eq(s, "DIRECT") {
        Ok(Relation::Direct)
    } else if str_eq(s, "RESELLER") {
        Ok(Relation::Reseller)
    } else {
        Err(Error("field #3 must be `DIRECT` or `RESELLER`"))
    }
}

impl Relation {
    /// Reads `DIRECT` or `RESELLER`, as [`relation`] does.
    pub fn from_str(s: &str) -> (r: Result<Relation>)
        ensures
            s@ == "DIRECT"@ ==> r == Result::<Relation>::Ok(Relation::Direct),
            s@ == "RESELLER"@ ==> r == Result::<Relation>::Ok(Relation::Reseller),
            s@ != "DIRECT"@ && s@ != "RESELLER"@ ==> r is Err,
    {
        relation(s)
    }
}

/// A record row: its first three fields with a known relation; a row without
/// three fields is no record, and one whose relation is unknown is an error.
pub open spec fn spec_record(s: Seq<char>) -> core::result::Result<Option<RecordView>, ()> {
    match spec_fields(s) {
        None => Ok(None),
        Some((domain, account_id, rel, authority_id)) => {
            if rel == "DIRECT"@ {
                Ok(
                    Some(
                        RecordView { domain, account_id, relation: Relation::Direct, authority_id },
                    ),
                )
            } else if rel == "RESELLER"@ {
                Ok(
                    Some(
                        RecordView {
                            domain,
                            account_id,
                            relation: Relation::Reseller,
                            authority_id,
                        },
                    ),
                )
            } else {
                Err(())
            }
        },
    }
}

/// Reads a record row.
pub fn record<'a>(s: &'a str) -> (r: Result<Option<Record<'a>>>)
    ensures
        match r {
            Ok(o) => spec_record(s@) == core::result::Result::<Option<RecordView>, ()>::Ok(
                o.deep_view(),
            ),
            Err(e) => spec_record(s@) is Err && e.0@
                == "field #3 must be `DIRECT` or `RESELLER`"@,
        },
{
    let (domain, account_id, rel, authority_id) = match fields(s) {
        None => {
            return Ok(None);
        },
        Some(f) => f,
    };
    let relation = match relation(rel) {
        Err(e) => {
            return Err(e);
        },
        Ok(rel) => rel,
    };
    Ok(Some(Record { domain, account_id, relation, authority_id }))
}

/// A variable row: a non-empty name before the first `=`, the value after it,
/// neither trimmed; a comment row is no variable.
pub open spec fn spec_variable(s: Seq<char>) -> Option<VariableView> {
    if s.len() > 0 && s[0] == '#' {
        None
    } else {
        match spec_find(s, '=') {
            None => None,
            Some(i) => {
                if i == 0 {
                    None
                } else {
                    Some(
                        VariableView {
                            name: s.subrange(0, i),
                            value: s.subrange(i + 1, s.len() as int),
                        },
                    )
                }
            },
        }
    }
}

/// Reads a variable row.
pub fn variable<'a>(s: &'a str) -> (r: Option<Variable<'a>>)
    ensures
        r.deep_view() == spec_variable(s@),
{
    let n = s.unicode_len();
    if n > 0 && s.get_char(0) == '#' {
        return None;
    }
    match char_at('=', s) {
        None => None,
        Some(i) => {
            proof {
                lemma_find_props(s@, '=');
            }
            if i == 0 {
                None
            } else {
                let name = s.substring_char(0, i);
                let value = s.substring_char(i + 1, n);
                Some(Variable { name, value })
            }
        },
    }
}

/// How one row reads: blank, a comment, a record, a variable, or unknown
/// text; a record row with an unknown relation is unknown.
pub open spec fn spec_row(s: Seq<char>) -> RowView {
    if s.len() == 0 {
        RowView::Blank
    } else {
        match spec_comment(s) {
            Some(c) => RowView::Comment(c),
            None => match spec_record(s) {
                Ok(Some(r)) => RowView::Record(r),
                Err(_) => RowView::Unknown(s),
                Ok(None) => match spec_variable(s) {
                    Some(v) => RowView::Variable(v),
                    None => RowView::Unknown(s),
                },
            },
        }
    }
}

/// Classifies one row of ads.txt.
pub fn row<'a>(s: &'a str) -> (r: Row<'a>)
    ensures
        r.deep_view() == spec_row(s@),
{
    if s.unicode_len() == 0 {
        return Row::Blank;
    }
    if let Some(c) = comment(s) {
        return Row::Comment(c);
    }
    match record(s) {
        Ok(Some(r)) => {
            return Row::Record(r);
        },
        Ok(None) => {},
        Err(_) => {
            return Row::Unknown(s);
        },
    }
    if let Some(v) = variable(s) {
        Row::Variable(v)
    } else {
        Row::Unknown(s)
    }
}

/// The lines of a text: the pieces between `'\n'` separators, except that a
/// trailing empty piece is no line.
pub open spec fn spec_lines_of(s: Seq<char>) -> Seq<Seq<char>> {
    let segs = spec_split_lines(s);
    if segs.len() > 0 && segs.last().len() == 0 {
        segs.drop_last()
    } else {
        segs
    }
}

/// Every row of a text, each line trimmed before it is classified.
pub open spec fn spec_rows(s: Seq<char>) -> Seq<RowView> {
    spec_lines_of(s).map_values(|l: Seq<char>| spec_row(spec_trim(l)))
}

/// Whether no row carries data: all are blank or unknown.
pub open spec fn spec_all_unknown(rows: Seq<RowView>) -> bool {
    forall|i: int| 0 <= i < rows.len() ==> rows[i] is Unknown || rows[i] is Blank
}

/// The rows of a whole ads.txt text; a text all of whose rows are blank or
/// unknown holds no ads.txt data and is rejected.
pub open spec fn spec_parse(s: Seq<char>) -> core::result::Result<Seq<RowView>, ()> {
    let rows = spec_rows(s);
    if spec_all_unknown(rows) {
        Err(())
    } else {
        Ok(rows)
    }
}

/// Parse the contents of ads.txt.
///
/// The row data are mapped to [`Row`] and unparsed data are mapped to
/// [`Row::Unknown`].
pub fn parse<'a>(s: &'a str) -> (r: Result<Vec<Row<'a>>>)
    ensures
        match r {
            Ok(rows) => spec_parse(s@) == core::result::Result::<Seq<RowView>, ()>::Ok(
                rows.deep_view(),
            ),
            Err(e) => spec_parse(s@) is Err && e.0@ == "all lines are unknown or blank"@,
        },
{
    let mut segs = split_newline(s);
    if segs.len() > 0 && segs[segs.len() - 1].unicode_len() == 0 {
        segs.pop();
        proof {
            assert(segs.deep_view() =~= spec_lines_of(s@));
        }
    }
    proof {
        assert(segs.deep_view() =~= spec_lines_of(s@));
    }
    let n = segs.len();
    let mut rows: Vec<Row<'a>> = Vec::new();
    let mut all_unknown = true;
    let ghost mut data_at: int = 0;
    let mut idx: usize = 0;
    while idx < n
        invariant
            n == segs@.len(),
            0 <= idx <= n,
            segs.deep_view() == spec_lines_of(s@),
            rows@.len() == idx,
            forall|k: int|
                0 <= k < idx ==> rows.deep_view()[k] == spec_row(spec_trim(segs.deep_view()[k])),
            all_unknown ==> forall|k: int|
                0 <= k < idx ==> rows.deep_view()[k] is Unknown || rows.deep_view()[k] is Blank,
            !all_unknown ==> 0 <= data_at < idx && !(rows.deep_view()[data_at] is Unknown
                || rows.deep_view()[data_at] is Blank),
        decreases n - idx,
    {
        let line = segs[idx];
        let rw = row(trim_str(line));
        let ghost prev = rows.deep_view();
        let is_data = match rw {
            Row::Comment(_) | Row::Record(_) | Row::Variable(_) => true,
            Row::Blank | Row::Unknown(_) => false,
        };
        rows.push(rw);
        if is_data {
            all_unknown = false;
            proof {
                data_at = idx as int;
            }
        }
        proof {
            assert(rows.deep_view() =~= prev.push(rw.deep_view()));
        }
        idx = idx + 1;
    }
    proof {
        assert(rows.deep_view() =~= spec_rows(s@));
    }
    if !all_unknown {
        Ok(rows)
    } else {
        Err(Error("all lines are unknown or blank"))
    }
}

/// The index of the first group with this name, if one exists.
pub open spec fn spec_key_index(vars: Seq<(Seq<char>, Seq<Seq<char>>)>, name: Seq<char>) -> Option<
    int,
>
    decreases vars.len(),
{
    if vars.len() == 0 {
        None
    } else if vars[0].0 == name {
        Some(0int)
    } else {
        match spec_key_index(vars.drop_first(), name) {
            None => None,
            Some(i) => Some(i + 1),
        }
    }
}

/// [`spec_key_index`] finds the first group with the name, and `None` means
/// no group has it.
pub proof fn lemma_key_index_props(vars: Seq<(Seq<char>, Seq<Seq<char>>)>, name: Seq<char>)
    ensures
        match spec_key_index(vars, name) {
            Some(i) => 0 <= i < vars.len() && vars[i].0 == name && forall|j: int|
                0 <= j < i ==> (#[trigger] vars[j]).0 != name,
            None => forall|j: int| 0 <= j < vars.len() ==> (#[trigger] vars[j]).0 != name,
        },
    decreases vars.len(),
{
    if vars.len() == 0 {
    } else if vars[0].0 == name {
    } else {
        let t = vars.drop_first();
        lemma_key_index_props(t, name);
        match spec_key_index(t, name) {
            None => {
                assert forall|j: int| 0 <= j < vars.len() implies (#[trigger] vars[j]).0
                    != name by {
                    if j > 0 {
                        assert(t[j - 1].0 != name);
                    }
                }
            },
            Some(i) => {
                assert(vars[i + 1] == t[i]);
                assert forall|j: int| 0 <= j < i + 1 implies (#[trigger] vars[j]).0 != name by {
                    if j > 0 {
                        assert(t[j - 1].0 != name);
                    }
                }
            },
        }
    }
}

/// An index whose group has the name, with no earlier such group, is what
/// [`spec_key_index`] returns.
pub proof fn lemma_key_index_is(vars: Seq<(Seq<char>, Seq<Seq<char>>)>, name: Seq<char>, i: int)
    requires
        0 <= i < vars.len(),
        vars[i].0 == name,
        forall|j: int| 0 <= j < i ==> (#[trigger] vars[j]).0 != name,
    ensures
        spec_key_index(vars, name) == Some(i),
{
    lemma_key_index_props(vars, name);
    match spec_key_index(vars, name) {
        None => {
            assert(vars[i].0 != name);
        },
        Some(k) => {
            if k < i {
                assert(vars[k].0 != name);
            } else if k > i {
                assert(vars[i].0 != name);
            }
        },
    }
}

/// A value joins the group of its name, or opens a new group at the end.
pub open spec fn spec_add_variable(
    vars: Seq<(Seq<char>, Seq<Seq<char>>)>,
    name: Seq<char>,
    value: Seq<char>,
) -> Seq<(Seq<char>, Seq<Seq<char>>)> {
    match spec_key_index(vars, name) {
        None => vars.push((name, seq![value])),
        Some(i) => vars.update(i, (vars[i].0, vars[i].1.push(value))),
    }
}

/// The records of the rows in order, and the variables grouped by name.
pub open spec fn spec_from_rows(rows: Seq<RowView>) -> AdsTxtView
    decreases rows.len(),
{
    if rows.len() == 0 {
        AdsTxtView { records: seq![], variables: seq![] }
    } else {
        let prev = spec_from_rows(rows.drop_last());
        match rows.last() {
            RowView::Record(r) => AdsTxtView {
                records: prev.records.push(r),
                variables: prev.variables,
            },
            RowView::Variable(v) => AdsTxtView {
                records: prev.records,
                variables: spec_add_variable(prev.variables, v.name, v.value),
            },
            _ => prev,
        }
    }
}

impl<'a> AdsTxt<'a> {
    /// Collects rows into ads.txt data: records in order; variable values
    /// grouped by name, names in order of first appearance.
    pub fn from(rows: Vec<Row<'a>>) -> (r: AdsTxt<'a>)
        ensures
            r.deep_view() == spec_from_rows(rows.deep_view()),
    {
        let n = rows.len();
        let mut records: Vec<Record<'a>> = Vec::new();
        let mut variables: Vec<(&'a str, Vec<&'a str>)> = Vec::new();
        proof {
            assert(rows.deep_view().take(0) =~= Seq::<RowView>::empty());
            assert(records.deep_view() =~= Seq::<RecordView>::empty());
            assert(variables.deep_view() =~= Seq::<(Seq<char>, Seq<Seq<char>>)>::empty());
        }
        let mut idx: usize = 0;
        while idx < n
            invariant
                n == rows@.len(),
                0 <= idx <= n,
                spec_from_rows(rows.deep_view().take(idx as int)) == (AdsTxtView {
                    records: records.deep_view(),
                    variables: variables.deep_view(),
                }),
            decreases n - idx,
        {
            let ghost pre = rows.deep_view().take(idx as int);
            let ghost prev_records = records.deep_view();
            let ghost prev_variables = variables.deep_view();
            let rw = rows[idx];
            match rw {
                Row::Record(rec) => {
                    records.push(rec);
                    proof {
                        assert(records.deep_view() =~= prev_records.push(rec.deep_view()));
                    }
                },
                Row::Variable(v) => {
                    let m = variables.len();
                    let mut j: usize = 0;
                    let mut found = false;
                    while !found && j < m
                        invariant
                            m == variables@.len(),
                            0 <= j <= m,
                            variables.deep_view() == prev_variables,
                            forall|k: int|
                                0 <= k < j ==> (#[trigger] prev_variables[k]).0 != v.name@,
                            found ==> j < m && prev_variables[j as int].0 == v.name@,
                        decreases m - j + if found {
                            0int
                        } else {
                            1int
                        },
                    {
                        if str_eq(variables[j].0, v.name) {
                            found = true;
                        } else {
                            j = j + 1;
                        }
                    }
                    if found {
                        proof {
                            lemma_key_index_is(prev_variables, v.name@, j as int);
                        }
                        let ghost spec_new = spec_add_variable(prev_variables, v.name@, v.value@);
                        let (nm, mut vals) = variables.remove(j);
                        let ghost prev_vals = vals.deep_view();
                        vals.push(v.value);
                        proof {
                            assert(vals.deep_view() =~= prev_vals.push(v.value@));
                            assert(prev_vals == prev_variables[j as int].1);
                        }
                        variables.insert(j, (nm, vals));
                        proof {
                            let nv = variables.deep_view();
                            assert(nv.len() == spec_new.len());
                            assert forall|k: int| 0 <= k < nv.len() implies nv[k] == spec_new[k] by {
                                if k < j {
                                    assert(variables@[k] == variables@.subrange(
                                        0,
                                        j as int,
                                    )[k]) by {
                                        assert(variables@.subrange(0, j as int)[k]
                                            == variables@[k]);
                                    }
                                } else {
                                }
                            }
                            assert(nv =~= spec_new);
                        }
                    } else {
                        proof {
                            lemma_key_index_props(prev_variables, v.name@);
                            if spec_key_index(prev_variables, v.name@) is Some {
                                let i = spec_key_index(prev_variables, v.name@)->Some_0;
                                assert(prev_variables[i].0 != v.name@);
                            }
                        }
                        let mut vals: Vec<&'a str> = Vec::new();
                        vals.push(v.value);
                        variables.push((v.name, vals));
                        proof {
                            assert(vals.deep_view() =~= seq![v.value@]);
                            assert(variables.deep_view() =~= spec_add_variable(
                                prev_variables,
                                v.name@,
                                v.value@,
                            ));
                        }
                    }
                },
                _ => {},
            }
            proof {
                assert(rows.deep_view().take(idx + 1).drop_last() =~= pre);
                assert(rows.deep_view().take(idx + 1).last() == rw.deep_view());
            }
            idx = idx + 1;
        }
        proof {
            assert(rows.deep_view().take(n as int) =~= rows.deep_view());
        }
        AdsTxt { records, variables }
    }

    /// Parse the contents of ads.txt, as [`parse_adstxt`] does.
    pub fn try_from(s: &'a str) -> (r: Result<AdsTxt<'a>>)
        ensures
            match r {
                Ok(a) => spec_parse_adstxt(s@) == core::result::Result::<AdsTxtView, ()>::Ok(
                    a.deep_view(),
                ),
                Err(e) => spec_parse_adstxt(s@) is Err && e.0@
                    == "all lines are unknown or blank"@,
            },
    {
        parse_adstxt(s)
    }
}

/// The whole ads.txt text as records and grouped variables; a text with no
/// data at all is rejected.
pub open spec fn spec_parse_adstxt(s: Seq<char>) -> core::result::Result<AdsTxtView, ()> {
    match spec_parse(s) {
        Err(_) => Err(()),
        Ok(rows) => Ok(spec_from_rows(rows)),
    }
}

/// Parse the contents of ads.txt.
///
/// See also [`parse`].
pub fn parse_adstxt<'a>(s: &'a str) -> (r: Result<AdsTxt<'a>>)
    ensures
        match r {
            Ok(a) => spec_parse_adstxt(s@) == core::result::Result::<AdsTxtView, ()>::Ok(
                a.deep_view(),
            ),
            Err(e) => spec_parse_adstxt(s@) is Err && e.0@ == "all lines are unknown or blank"@,
        },
{
    match parse(s) {
        Ok(rows) => Ok(AdsTxt::from(rows)),
        Err(e) => Err(e),
    }
}

} // verus!
