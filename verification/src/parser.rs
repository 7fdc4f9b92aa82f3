//! A line-oriented parser for [`ads.txt`] data that keeps every line's
//! extension data and trailing comment.
//!
//! [`ads.txt`]: https://iabtechlab.com/ads-txt/

use crate::text::{
    find_char, find_first_of, lemma_find_first_of_props, lemma_find_props, spec_find,
    spec_find_first_of, spec_split_lines, spec_split_once, spec_trim, split_newline,
    split_once_char, str_eq, trim_str,
};
use vstd::prelude::*;
use vstd::string::*;

pub mod error;
pub mod parser;

verus! {

/// Represents comment of ads.txt.
#[derive(Debug, PartialEq, Clone)]
pub struct Comment<'a>(pub &'a str);

impl<'a> DeepView for Comment<'a> {
    type V = Seq<char>;

    open spec fn deep_view(&self) -> Seq<char> {
        self.0@
    }
}

/// Represents extension data of ads.txt record.
#[derive(Debug, PartialEq, Clone)]
pub struct Extension<'a>(pub &'a str);

impl<'a> DeepView for Extension<'a> {
    type V = Seq<char>;

    open spec fn deep_view(&self) -> Seq<char> {
        self.0@
    }
}

/// Represents type of Account/Relationship.
#[derive(Debug, PartialEq, Clone)]
pub enum Relation<'a> {
    Direct,
    Reseller,
    Unknown(&'a str),
}

/// The mathematical value of a [`Relation`].
pub enum RelationView {
    Direct,
    Reseller,
    Unknown(Seq<char>),
}

impl<'a> DeepView for Relation<'a> {
    type V = RelationView;

    open spec fn deep_view(&self) -> RelationView {
        match *self {
            Relation::Direct => RelationView::Direct,
            Relation::Reseller => RelationView::Reseller,
            Relation::Unknown(s) => RelationView::Unknown(s@),
        }
    }
}

/// Represents record of ads.txt.
#[derive(Debug, PartialEq, Clone)]
pub struct Record<'a> {
    /// FIELD #1: Domain name of the advertising system.
    pub domain: &'a str,
    /// FIELD #2: Publisher's Account ID.
    pub account_id: &'a str,
    /// FIELD #3: Type of Account/Relationship.
    pub relation: Relation<'a>,
    /// FIELD #4: Certification Authority ID.
    pub authority_id: Option<&'a str>,
}

/// The mathematical value of a [`Record`].
pub struct RecordView {
    pub domain: Seq<char>,
    pub account_id: Seq<char>,
    pub relation: RelationView,
    pub authority_id: Option<Seq<char>>,
}

impl<'a> DeepView for Record<'a> {
    type V = RecordView;

    open spec fn deep_view(&self) -> RecordView {
        RecordView {
            domain: self.domain@,
            account_id: self.account_id@,
            relation: self.relation.deep_view(),
            authority_id: self.authority_id.deep_view(),
        }
    }
}

/// Represents variable record.
#[derive(Debug, PartialEq, Clone)]
pub struct Variable<'a> {
    pub name: &'a str,
    pub value: &'a str,
}

/// The mathematical value of a [`Variable`].
pub struct VariableView {
    pub name: Seq<char>,
    pub value: Seq<char>,
}

impl<'a> DeepView for Variable<'a> {
    type V = VariableView;

    open spec fn deep_view(&self) -> VariableView {
        VariableView { name: self.name@, value: self.value@ }
    }
}

/// Represents the line data of ads.txt.
#[derive(Debug, PartialEq, Clone)]
pub enum LineData<'a> {
    /// Comment.
    Comment(Comment<'a>),
    /// Record.
    Record { record: Record<'a>, extension: Option<Extension<'a>>, comment: Option<Comment<'a>> },
    /// Variable record.
    Variable {
        variable: Variable<'a>,
        extension: Option<Extension<'a>>,
        comment: Option<Comment<'a>>,
    },
    /// Blank line.
    Empty,
    /// Unknown line data.
    Unknown(&'a str),
}

/// The mathematical value of a [`LineData`].
pub enum LineDataView {
    Comment(Seq<char>),
    Record { record: RecordView, extension: Option<Seq<char>>, comment: Option<Seq<char>> },
    Variable { variable: VariableView, extension: Option<Seq<char>>, comment: Option<Seq<char>> },
    Empty,
    Unknown(Seq<char>),
}

impl<'a> DeepView for LineData<'a> {
    type V = LineDataView;

    open spec fn deep_view(&self) -> LineDataView {
        match *self {
            LineData::Comment(c) => LineDataView::Comment(c.deep_view()),
            LineData::Record { record, extension, comment } => LineDataView::Record {
                record: record.deep_view(),
                extension: extension.deep_view(),
                comment: comment.deep_view(),
            },
            LineData::Variable { variable, extension, comment } => LineDataView::Variable {
                variable: variable.deep_view(),
                extension: extension.deep_view(),
                comment: comment.deep_view(),
            },
            LineData::Empty => LineDataView::Empty,
            LineData::Unknown(s) => LineDataView::Unknown(s@),
        }
    }
}

/// Represents ads.txt data: the records and the variables, each with any
/// extension data that followed it on its line.
#[derive(Debug, PartialEq, Clone)]
pub struct AdsTxt<'a> {
    pub records: Vec<(Record<'a>, Option<Extension<'a>>)>,
    pub variables: Vec<(Variable<'a>, Option<Extension<'a>>)>,
}

/// The mathematical value of an [`AdsTxt`].
pub struct AdsTxtView {
    pub records: Seq<(RecordView, Option<Seq<char>>)>,
    pub variables: Seq<(VariableView, Option<Seq<char>>)>,
}

impl<'a> DeepView for AdsTxt<'a> {
    type V = AdsTxtView;

    open spec fn deep_view(&self) -> AdsTxtView {
        AdsTxtView { records: self.records.deep_view(), variables: self.variables.deep_view() }
    }
}

/// A comment line: the line itself when it opens with `#`.
pub open spec fn spec_parse_comment(line: Seq<char>) -> Option<Seq<char>> {
    if line.len() > 0 && line[0] == '#' {
        Some(line)
    } else {
        None
    }
}

/// Whether the line opens with `#`; such a line is a comment, kept whole.
pub fn parse_comment<'a>(line: &'a str) -> (r: Option<Comment<'a>>)
    ensures
        r.deep_view() == spec_parse_comment(line@),
{
    if line.unicode_len() > 0 && line.get_char(0) == '#' {
        Some(Comment(line))
    } else {
        None
    }
}

/// `DIRECT` and `RESELLER` name the two account relationships; anything else
/// is kept as unknown text.
pub open spec fn spec_parse_relation(s: Seq<char>) -> RelationView {
    if s == "DIRECT"@ {
        RelationView::Direct
    } else if s == "RESELLER"@ {
        RelationView::Reseller
    } else {
        RelationView::Unknown(s)
    }
}

/// Reads FIELD #3 of a record.
pub fn parse_relation<'a>(s: &'a str) -> (r: Relation<'a>)
    ensures
        r.deep_view() == spec_parse_relation(s@),
{
    if str_eq(s, "DIRECT") {
        Relation::Direct
    } else if str_eq(s, "RESELLER") {
        Relation::Reseller
    } else {
        Relation::Unknown(s)
    }
}

/// The extension data and comment at the end of a line: after the first `;`
/// comes extension data, running until a `#` opens a trailing comment.
pub open spec fn spec_parse_record_tail(t: Seq<char>) -> Option<
    (Option<Seq<char>>, Option<Seq<char>>),
> {
    match spec_find_first_of(t, ';', '#') {
        None => None,
        Some(i) => {
            if t[i] == '#' {
                Some((None, Some(spec_trim(t.subrange(i, t.len() as int)))))
            } else {
                let rest = t.subrange(i + 1, t.len() as int);
                match spec_find(rest, '#') {
                    Some(k) => Some(
                        (
                            Some(spec_trim(rest.subrange(0, k))),
                            Some(spec_trim(rest.subrange(k, rest.len() as int))),
                        ),
                    ),
                    None => Some((Some(spec_trim(rest)), None)),
                }
            }
        },
    }
}

/// Splits the tail of a line into its extension data and trailing comment,
/// if either is marked.
pub fn parse_record_tail<'a>(line_tail: &'a str) -> (r: Option<
    (Option<Extension<'a>>, Option<Comment<'a>>),
>)
    ensures
        r.deep_view() == spec_parse_record_tail(line_tail@),
{
    let n = line_tail.unicode_len();
    match find_first_of(line_tail, ';', '#') {
        None => None,
        Some(i) => {
            proof {
                lemma_find_first_of_props(line_tail@, ';', '#');
            }
            if line_tail.get_char(i) == '#' {
                let c = trim_str(line_tail.substring_char(i, n));
                Some((None, Some(Comment(c))))
            } else {
                let rest = line_tail.substring_char(i + 1, n);
                let m = rest.unicode_len();
                match find_char(rest, '#') {
                    Some(k) => {
                        proof {
                            lemma_find_props(rest@, '#');
                        }
                        let e = trim_str(rest.substring_char(0, k));
                        let c = trim_str(rest.substring_char(k, m));
                        Some((Some(Extension(e)), Some(Comment(c))))
                    },
                    None => Some((Some(Extension(trim_str(rest))), None)),
                }
            }
        },
    }
}

/// A field that may be cut short by extension data or a comment: the text
/// before the first `;` or `#`, trimmed.
pub open spec fn spec_head_field(t: Seq<char>) -> Seq<char> {
    match spec_find_first_of(t, ';', '#') {
        Some(i) => spec_trim(t.subrange(0, i)),
        None => spec_trim(t),
    }
}

/// Reads [`spec_head_field`] of `t`.
fn head_field<'a>(t: &'a str) -> (r: &'a str)
    ensures
        r@ == spec_head_field(t@),
{
    match find_first_of(t, ';', '#') {
        Some(i) => {
            proof {
                lemma_find_first_of_props(t@, ';', '#');
            }
            trim_str(t.substring_char(0, i))
        },
        None => trim_str(t),
    }
}

/// The extension data and comment of a line tail, or nothing where none is
/// marked.
pub open spec fn spec_tail_or_none(t: Seq<char>) -> (Option<Seq<char>>, Option<Seq<char>>) {
    match spec_parse_record_tail(t) {
        Some(p) => p,
        None => (None, None),
    }
}

/// A record line: two comma-separated fields, a relation, and an optional
/// authority id, each trimmed; the last field may be cut short by extension
/// data or a comment.
pub open spec fn spec_parse_record(line: Seq<char>) -> Option<
    (RecordView, Option<Seq<char>>, Option<Seq<char>>),
> {
    match spec_split_once(line, ',') {
        None => None,
        Some((f1, t1)) => match spec_split_once(t1, ',') {
            None => None,
            Some((f2, t2)) => {
                let domain = spec_trim(f1);
                let account_id = spec_trim(f2);
                match spec_split_once(t2, ',') {
                    None => {
                        let relation = spec_parse_relation(spec_head_field(t2));
                        let (extension, comment) = spec_tail_or_none(t2);
                        Some(
                            (
                                RecordView { domain, account_id, relation, authority_id: None },
                                extension,
                                comment,
                            ),
                        )
                    },
                    Some((f3, t3)) => {
                        let relation = spec_parse_relation(spec_trim(f3));
                        let authority_id = Some(spec_head_field(t3));
                        let (extension, comment) = spec_tail_or_none(t3);
                        Some(
                            (
                                RecordView { domain, account_id, relation, authority_id },
                                extension,
                                comment,
                            ),
                        )
                    },
                }
            },
        },
    }
}

/// Parses a record line with its extension data and trailing comment.
pub fn parse_record<'a>(line: &'a str) -> (r: Option<
    (Record<'a>, Option<Extension<'a>>, Option<Comment<'a>>),
>)
    ensures
        r.deep_view() == spec_parse_record(line@),
{
    let (f1, t1) = match split_once_char(line, ',') {
        None => {
            return None;
        },
        Some(p) => p,
    };
    let (f2, t2) = match split_once_char(t1, ',') {
        None => {
            return None;
        },
        Some(p) => p,
    };
    let domain = trim_str(f1);
    let account_id = trim_str(f2);
    match split_once_char(t2, ',') {
        None => {
            let relation = parse_relation(head_field(t2));
            let (extension, comment) = match parse_record_tail(t2) {
                Some(p) => p,
                None => (None, None),
            };
            Some((Record { domain, account_id, relation, authority_id: None }, extension, comment))
        },
        Some((f3, t3)) => {
            let relation = parse_relation(trim_str(f3));
            let authority_id = Some(head_field(t3));
            let (extension, comment) = match parse_record_tail(t3) {
                Some(p) => p,
                None => (None, None),
            };
            Some((Record { domain, account_id, relation, authority_id }, extension, comment))
        },
    }
}

/// A variable line: a name before the first `=`, a value after it, both
/// trimmed; the value may be cut short by extension data or a comment.
pub open spec fn spec_parse_variable(line: Seq<char>) -> Option<
    (VariableView, Option<Seq<char>>, Option<Seq<char>>),
> {
    match spec_split_once(line, '=') {
        None => None,
        Some((n_raw, t)) => {
            let name = spec_trim(n_raw);
            let value = spec_head_field(t);
            let (extension, comment) = spec_tail_or_none(t);
            Some((VariableView { name, value }, extension, comment))
        },
    }
}

/// Parses a variable line with its extension data and trailing comment.
pub fn parse_variable<'a>(line: &'a str) -> (r: Option<
    (Variable<'a>, Option<Extension<'a>>, Option<Comment<'a>>),
>)
    ensures
        r.deep_view() == spec_parse_variable(line@),
{
    let (n_raw, t) = match split_once_char(line, '=') {
        None => {
            return None;
        },
        Some(p) => p,
    };
    let name = trim_str(n_raw);
    let value = head_field(t);
    let (extension, comment) = match parse_record_tail(t) {
        Some(p) => p,
        None => (None, None),
    };
    Some((Variable { name, value }, extension, comment))
}

/// How one line of ads.txt reads after trimming: blank, a comment, a record,
/// a variable, or unknown text.
pub open spec fn spec_parse_line(line: Seq<char>) -> LineDataView {
    let t = spec_trim(line);
    if t.len() == 0 {
        LineDataView::Empty
    } else if spec_parse_comment(t) is Some {
        LineDataView::Comment(t)
    } else {
        match spec_parse_record(t) {
            Some((record, extension, comment)) => LineDataView::Record {
                record,
                extension,
                comment,
            },
            None => match spec_parse_variable(t) {
                Some((variable, extension, comment)) => LineDataView::Variable {
                    variable,
                    extension,
                    comment,
                },
                None => LineDataView::Unknown(t),
            },
        }
    }
}

impl<'a> LineData<'a> {
    /// Classifies one line of ads.txt.
    pub fn parse(line: &'a str) -> (r: LineData<'a>)
        ensures
            r.deep_view() == spec_parse_line(line@),
    {
        let t = trim_str(line);
        if t.unicode_len() == 0 {
            return LineData::Empty;
        }
        if let Some(c) = parse_comment(t) {
            return LineData::Comment(c);
        }
        if let Some((record, extension, comment)) = parse_record(t) {
            return LineData::Record { record, extension, comment };
        }
        if let Some((variable, extension, comment)) = parse_variable(t) {
            return LineData::Variable { variable, extension, comment };
        }
        LineData::Unknown(t)
    }
}

/// The records and variables collected from the parsed lines, in order of
/// appearance; other lines contribute nothing.
pub open spec fn spec_collect_lines(lines: Seq<Seq<char>>) -> AdsTxtView
    decreases lines.len(),
{
    if lines.len() == 0 {
        AdsTxtView { records: seq![], variables: seq![] }
    } else {
        let prev = spec_collect_lines(lines.drop_last());
        match spec_parse_line(lines.last()) {
            LineDataView::Record { record, extension, comment } => AdsTxtView {
                records: prev.records.push((record, extension)),
                variables: prev.variables,
            },
            LineDataView::Variable { variable, extension, comment } => AdsTxtView {
                records: prev.records,
                variables: prev.variables.push((variable, extension)),
            },
            _ => prev,
        }
    }
}

/// The records and variables of a whole ads.txt text, line by line.
pub open spec fn spec_parse_adstxt(s: Seq<char>) -> AdsTxtView {
    spec_collect_lines(spec_split_lines(s))
}

/// Each line of a whole ads.txt text, classified.
pub open spec fn spec_parse_all_lines(s: Seq<char>) -> Seq<LineDataView> {
    spec_split_lines(s).map_values(|l: Seq<char>| spec_parse_line(l))
}

impl<'a> AdsTxt<'a> {
    /// Parse the contents of ads.txt, keeping the records and the variables.
    ///
    /// See also [`AdsTxt::parse_lines`].
    pub fn parse(data: &'a str) -> (r: AdsTxt<'a>)
        ensures
            r.deep_view() == spec_parse_adstxt(data@),
    {
        let lines = split_newline(data);
        let mut records: Vec<(Record<'a>, Option<Extension<'a>>)> = Vec::new();
        let mut variables: Vec<(Variable<'a>, Option<Extension<'a>>)> = Vec::new();
        let n = lines.len();
        let mut idx: usize = 0;
        proof {
            assert(lines.deep_view().take(0) =~= Seq::<Seq<char>>::empty());
            assert(records.deep_view() =~= Seq::<(RecordView, Option<Seq<char>>)>::empty());
            assert(variables.deep_view() =~= Seq::<(VariableView, Option<Seq<char>>)>::empty());
        }
        while idx < n
            invariant
                n == lines@.len(),
                0 <= idx <= n,
                lines.deep_view() == spec_split_lines(data@),
                spec_collect_lines(lines.deep_view().take(idx as int)) == (AdsTxtView {
                    records: records.deep_view(),
                    variables: variables.deep_view(),
                }),
            decreases n - idx,
        {
            let ghost pre = lines.deep_view().take(idx as int);
            let ghost prev_records = records.deep_view();
            let ghost prev_variables = variables.deep_view();
            let line = lines[idx];
            match LineData::parse(line) {
                LineData::Record { record, extension, comment: _ } => {
                    records.push((record, extension));
                    proof {
                        assert(records.deep_view() =~= prev_records.push(
                            (record.deep_view(), extension.deep_view()),
                        ));
                    }
                },
                LineData::Variable { variable, extension, comment: _ } => {
                    variables.push((variable, extension));
                    proof {
                        assert(variables.deep_view() =~= prev_variables.push(
                            (variable.deep_view(), extension.deep_view()),
                        ));
                    }
                },
                _ => {},
            }
            proof {
                assert(lines.deep_view().take(idx + 1).drop_last() =~= pre);
                assert(lines.deep_view().take(idx + 1).last() == line@);
            }
            idx = idx + 1;
        }
        proof {
            assert(lines.deep_view().take(n as int) =~= lines.deep_view());
        }
        AdsTxt { records, variables }
    }

    /// Parse the contents of ads.txt, classifying every line.
    ///
    /// The line data are mapped to [`LineData`]. See also [`AdsTxt::parse`].
    pub fn parse_lines(data: &'a str) -> (r: Vec<LineData<'a>>)
        ensures
            r.deep_view() == spec_parse_all_lines(data@),
    {
        let lines = split_newline(data);
        let mut out: Vec<LineData<'a>> = Vec::new();
        let n = lines.len();
        let mut idx: usize = 0;
        while idx < n
            invariant
                n == lines@.len(),
                0 <= idx <= n,
                lines.deep_view() == spec_split_lines(data@),
                out@.len() == idx,
                forall|k: int|
                    0 <= k < idx ==> out.deep_view()[k] == spec_parse_line(
                        lines.deep_view()[k],
                    ),
            decreases n - idx,
        {
            let line = lines[idx];
            let ld = LineData::parse(line);
            let ghost prev = out.deep_view();
            out.push(ld);
            proof {
                assert(out.deep_view() =~= prev.push(ld.deep_view()));
                assert(line@ == lines.deep_view()[idx as int]);
            }
            idx = idx + 1;
        }
        proof {
            assert(out.deep_view() =~= spec_parse_all_lines(data@));
        }
        out
    }
}

} // verus!
