//! Record layouts: which field stands in which column of a line.
//!
//! The accounting tool prints the fields it was asked for, in the order it
//! was asked. A layout fixes that list, so that the query and the parsers
//! agree on it. The layout in force is chosen by the caller; it is never
//! guessed from the text.

use vstd::prelude::*;
use vstd::string::*;

use crate::record::{Field, Record, SacctData};
use crate::text::views;

verus! {

/// The layouts this library reads.
#[derive(Debug, Clone, Copy, PartialEq, Eq, Structural)]
pub enum Layout {
    /// Fifteen columns: identity, times, state, and the node and resource
    /// fields. This is the layout the viewer asks for by default.
    Resource,
    /// Fourteen columns: identity, partition, account, times, submit time
    /// and working directory, without the node and resource fields.
    Accounting,
}

impl Layout {
    /// The number of columns of the layout.
    pub open spec fn width(self) -> nat {
        match self {
            Layout::Resource => 15,
            Layout::Accounting => 14,
        }
    }

    /// The number of columns a line must have to be read at all: every
    /// column but the last, which may be missing.
    pub open spec fn required(self) -> nat {
        (self.width() - 1) as nat
    }

    /// The field in column `k`, counted from 0.
    pub open spec fn column(self, k: int) -> Option<Field> {
        match self {
            Layout::Resource => {
                if k == 0 {
                    Some(Field::JobId)
                } else if k == 1 {
                    Some(Field::JobName)
                } else if k == 2 {
                    Some(Field::User)
                } else if k == 3 {
                    Some(Field::Start)
                } else if k == 4 {
                    Some(Field::End)
                } else if k == 5 {
                    Some(Field::Elapsed)
                } else if k == 6 {
                    Some(Field::TimeLimit)
                } else if k == 7 {
                    Some(Field::State)
                } else if k == 8 {
                    Some(Field::NNodes)
                } else if k == 9 {
                    Some(Field::ExitCode)
                } else if k == 10 {
                    Some(Field::NodeList)
                } else if k == 11 {
                    Some(Field::ReqCpus)
                } else if k == 12 {
                    Some(Field::ReqMem)
                } else if k == 13 {
                    Some(Field::MaxRss)
                } else if k == 14 {
                    Some(Field::UserCpu)
                } else {
                    None
                }
            },
            Layout::Accounting => {
                if k == 0 {
                    Some(Field::JobId)
                } else if k == 1 {
                    Some(Field::JobName)
                } else if k == 2 {
                    Some(Field::Partition)
                } else if k == 3 {
                    Some(Field::Account)
                } else if k == 4 {
                    Some(Field::AllocCpus)
                } else if k == 5 {
                    Some(Field::State)
                } else if k == 6 {
                    Some(Field::ExitCode)
                } else if k == 7 {
                    Some(Field::Start)
                } else if k == 8 {
                    Some(Field::End)
                } else if k == 9 {
                    Some(Field::Elapsed)
                } else if k == 10 {
                    Some(Field::TimeLimit)
                } else if k == 11 {
                    Some(Field::Submit)
                } else if k == 12 {
                    Some(Field::User)
                } else if k == 13 {
                    Some(Field::WorkDir)
                } else {
                    None
                }
            },
        }
    }

    /// The column that holds field `f`, if the layout has that field.
    pub open spec fn position(self, f: Field) -> Option<int> {
        match self {
            Layout::Resource => match f {
                Field::JobId => Some(0),
                Field::JobName => Some(1),
                Field::User => Some(2),
                Field::Start => Some(3),
                Field::End => Some(4),
                Field::Elapsed => Some(5),
                Field::TimeLimit => Some(6),
                Field::State => Some(7),
                Field::NNodes => Some(8),
                Field::ExitCode => Some(9),
                Field::NodeList => Some(10),
                Field::ReqCpus => Some(11),
                Field::ReqMem => Some(12),
                Field::MaxRss => Some(13),
                Field::UserCpu => Some(14),
                _ => None,
            },
            Layout::Accounting => match f {
                Field::JobId => Some(0),
                Field::JobName => Some(1),
                Field::Partition => Some(2),
                Field::Account => Some(3),
                Field::AllocCpus => Some(4),
                Field::State => Some(5),
                Field::ExitCode => Some(6),
                Field::Start => Some(7),
                Field::End => Some(8),
                Field::Elapsed => Some(9),
                Field::TimeLimit => Some(10),
                Field::Submit => Some(11),
                Field::User => Some(12),
                Field::WorkDir => Some(13),
                _ => None,
            },
        }
    }

    /// What field `f` of a record is when the record is read from `tokens`:
    /// the token in the field's column, or the empty text where the layout
    /// has no such field or the line has no such column.
    pub open spec fn cell(self, tokens: Seq<Seq<char>>, f: Field) -> Seq<char> {
        match self.position(f) {
            Some(k) => if k < tokens.len() {
                tokens[k]
            } else {
                Seq::empty()
            },
            None => Seq::empty(),
        }
    }

    /// The record read from the tokens of one line. Tokens beyond the
    /// layout's last column are ignored.
    pub open spec fn record_of(self, tokens: Seq<Seq<char>>) -> Record {
        Record {
            job_id: self.cell(tokens, Field::JobId),
            job_name: self.cell(tokens, Field::JobName),
            user: self.cell(tokens, Field::User),
            account: self.cell(tokens, Field::Account),
            partition: self.cell(tokens, Field::Partition),
            state: self.cell(tokens, Field::State),
            exit_code: self.cell(tokens, Field::ExitCode),
            start: self.cell(tokens, Field::Start),
            end: self.cell(tokens, Field::End),
            submit: self.cell(tokens, Field::Submit),
            elapsed: self.cell(tokens, Field::Elapsed),
            time_limit: self.cell(tokens, Field::TimeLimit),
            n_nodes: self.cell(tokens, Field::NNodes),
            alloc_cpus: self.cell(tokens, Field::AllocCpus),
            req_cpus: self.cell(tokens, Field::ReqCpus),
            node_list: self.cell(tokens, Field::NodeList),
            req_mem: self.cell(tokens, Field::ReqMem),
            max_rss: self.cell(tokens, Field::MaxRss),
            user_cpu: self.cell(tokens, Field::UserCpu),
            work_dir: self.cell(tokens, Field::WorkDir),
        }
    }

    /// The first `n` column names, with a comma between two of them.
    pub open spec fn name_list(self, n: nat) -> Seq<char>
        decreases n,
    {
        if n == 0 {
            Seq::empty()
        } else if n == 1 {
            tool_name(self.column(0))
        } else {
            self.name_list((n - 1) as nat) + seq![','] + tool_name(self.column(n - 1))
        }
    }

    /// The argument that asks the accounting tool for exactly the columns of
    /// this layout, in their order.
    pub open spec fn format_text(self) -> Seq<char> {
        "--format="@ + self.name_list(self.width())
    }

    /// The number of columns of the layout.
    pub fn columns(&self) -> (n: usize)
        ensures
            n == self.width(),
    {
        match self {
            Layout::Resource => 15,
            Layout::Accounting => 14,
        }
    }

    /// The number of columns a line must have to be read at all.
    pub fn min_columns(&self) -> (n: usize)
        ensures
            n == self.required(),
    {
        self.columns() - 1
    }

    /// The column that holds field `f`, if the layout has that field.
    pub fn index_of(&self, f: Field) -> (k: Option<usize>)
        ensures
            match k {
                Some(i) => self.position(f) == Some(i as int),
                None => self.position(f) is None,
            },
    {
        match self {
            Layout::Resource => match f {
                Field::JobId => Some(0),
                Field::JobName => Some(1),
                Field::User => Some(2),
                Field::Start => Some(3),
                Field::End => Some(4),
                Field::Elapsed => Some(5),
                Field::TimeLimit => Some(6),
                Field::State => Some(7),
                Field::NNodes => Some(8),
                Field::ExitCode => Some(9),
                Field::NodeList => Some(10),
                Field::ReqCpus => Some(11),
                Field::ReqMem => Some(12),
                Field::MaxRss => Some(13),
                Field::UserCpu => Some(14),
                _ => None,
            },
            Layout::Accounting => match f {
                Field::JobId => Some(0),
                Field::JobName => Some(1),
                Field::Partition => Some(2),
                Field::Account => Some(3),
                Field::AllocCpus => Some(4),
                Field::State => Some(5),
                Field::ExitCode => Some(6),
                Field::Start => Some(7),
                Field::End => Some(8),
                Field::Elapsed => Some(9),
                Field::TimeLimit => Some(10),
                Field::Submit => Some(11),
                Field::User => Some(12),
                Field::WorkDir => Some(13),
                _ => None,
            },
        }
    }

    /// The field in column `k`, counted from 0; `None` past the last column.
    pub fn field_at(&self, k: usize) -> (f: Option<Field>)
        ensures
            f == self.column(k as int),
            f is Some <==> k < self.width(),
    {
        match self {
            Layout::Resource => match k {
                0 => Some(Field::JobId),
                1 => Some(Field::JobName),
                2 => Some(Field::User),
                3 => Some(Field::Start),
                4 => Some(Field::End),
                5 => Some(Field::Elapsed),
                6 => Some(Field::TimeLimit),
                7 => Some(Field::State),
                8 => Some(Field::NNodes),
                9 => Some(Field::ExitCode),
                10 => Some(Field::NodeList),
                11 => Some(Field::ReqCpus),
                12 => Some(Field::ReqMem),
                13 => Some(Field::MaxRss),
                14 => Some(Field::UserCpu),
                _ => None,
            },
            Layout::Accounting => match k {
                0 => Some(Field::JobId),
                1 => Some(Field::JobName),
                2 => Some(Field::Partition),
                3 => Some(Field::Account),
                4 => Some(Field::AllocCpus),
                5 => Some(Field::State),
                6 => Some(Field::ExitCode),
                7 => Some(Field::Start),
                8 => Some(Field::End),
                9 => Some(Field::Elapsed),
                10 => Some(Field::TimeLimit),
                11 => Some(Field::Submit),
                12 => Some(Field::User),
                13 => Some(Field::WorkDir),
                _ => None,
            },
        }
    }

    fn cell_of(&self, tokens: &Vec<String>, f: Field) -> (s: String)
        ensures
            s@ == self.cell(views(tokens@), f),
    {
        match self.index_of(f) {
            Some(k) => {
                if k < tokens.len() {
                    tokens[k].clone()
                } else {
                    String::new()
                }
            },
            None => String::new(),
        }
    }

    /// Reads a record from the tokens of one line.
    pub fn record_from(&self, tokens: &Vec<String>) -> (r: SacctData)
        ensures
            r@ == self.record_of(views(tokens@)),
    {
        SacctData {
            job_id: self.cell_of(tokens, Field::JobId),
            job_name: self.cell_of(tokens, Field::JobName),
            user: self.cell_of(tokens, Field::User),
            account: self.cell_of(tokens, Field::Account),
            partition: self.cell_of(tokens, Field::Partition),
            state: self.cell_of(tokens, Field::State),
            exit_code: self.cell_of(tokens, Field::ExitCode),
            start: self.cell_of(tokens, Field::Start),
            end: self.cell_of(tokens, Field::End),
            submit: self.cell_of(tokens, Field::Submit),
            elapsed: self.cell_of(tokens, Field::Elapsed),
            time_limit: self.cell_of(tokens, Field::TimeLimit),
            n_nodes: self.cell_of(tokens, Field::NNodes),
            alloc_cpus: self.cell_of(tokens, Field::AllocCpus),
            req_cpus: self.cell_of(tokens, Field::ReqCpus),
            node_list: self.cell_of(tokens, Field::NodeList),
            req_mem: self.cell_of(tokens, Field::ReqMem),
            max_rss: self.cell_of(tokens, Field::MaxRss),
            user_cpu: self.cell_of(tokens, Field::UserCpu),
            work_dir: self.cell_of(tokens, Field::WorkDir),
        }
    }

    /// The argument that asks the accounting tool for exactly the columns of
    /// this layout, in their order.
    pub fn format_flag(&self) -> (flag: String)
        ensures
            flag@ == self.format_text(),
    {
        let mut flag = String::new();
        flag.append("--format=");
        let n = self.columns();
        let mut k: usize = 0;
        assert(flag@ =~= "--format="@ + self.name_list(0));
        while k < n
            invariant
                k <= n == self.width(),
                flag@ == "--format="@ + self.name_list(k as nat),
            decreases n - k,
        {
            if k > 0 {
                flag.append(",");
            }
            flag.append(field_name(self.field_at(k)));
            k = k + 1;
            proof {
                reveal_strlit(",");
                assert(","@ =~= seq![',']);
                assert(flag@ =~= "--format="@ + self.name_list(k as nat));
            }
        }
        flag
    }
}

/// The name by which the accounting tool knows a column; empty for no
/// column.
pub open spec fn tool_name(f: Option<Field>) -> Seq<char> {
    match f {
        Some(Field::JobId) => "JobID"@,
        Some(Field::JobName) => "JobName"@,
        Some(Field::User) => "User"@,
        Some(Field::Account) => "Account"@,
        Some(Field::Partition) => "Partition"@,
        Some(Field::State) => "State"@,
        Some(Field::ExitCode) => "ExitCode"@,
        Some(Field::Start) => "Start"@,
        Some(Field::End) => "End"@,
        Some(Field::Submit) => "Submit"@,
        Some(Field::Elapsed) => "Elapsed"@,
        Some(Field::TimeLimit) => "Timelimit"@,
        Some(Field::NNodes) => "NNodes"@,
        Some(Field::AllocCpus) => "AllocCPUS"@,
        Some(Field::ReqCpus) => "ReqCPUS"@,
        Some(Field::NodeList) => "NodeList"@,
        Some(Field::ReqMem) => "ReqMem"@,
        Some(Field::MaxRss) => "MaxRSS"@,
        Some(Field::UserCpu) => "UserCPU"@,
        Some(Field::WorkDir) => "WorkDir"@,
        None => ""@,
    }
}

/// The name by which the accounting tool knows a column.
pub fn field_name(f: Option<Field>) -> (name: &'static str)
    ensures
        name@ == tool_name(f),
{
    match f {
        Some(Field::JobId) => "JobID",
        Some(Field::JobName) => "JobName",
        Some(Field::User) => "User",
        Some(Field::Account) => "Account",
        Some(Field::Partition) => "Partition",
        Some(Field::State) => "State",
        Some(Field::ExitCode) => "ExitCode",
        Some(Field::Start) => "Start",
        Some(Field::End) => "End",
        Some(Field::Submit) => "Submit",
        Some(Field::Elapsed) => "Elapsed",
        Some(Field::TimeLimit) => "Timelimit",
        Some(Field::NNodes) => "NNodes",
        Some(Field::AllocCpus) => "AllocCPUS",
        Some(Field::ReqCpus) => "ReqCPUS",
        Some(Field::NodeList) => "NodeList",
        Some(Field::ReqMem) => "ReqMem",
        Some(Field::MaxRss) => "MaxRSS",
        Some(Field::UserCpu) => "UserCPU",
        Some(Field::WorkDir) => "WorkDir",
        None => "",
    }
}

/// A column and the field in it name each other.
pub proof fn lemma_column_position(layout: Layout, k: int, f: Field)
    ensures
        layout.column(k) == Some(f) <==> layout.position(f) == Some(k),
        layout.column(k) is Some <==> 0 <= k < layout.width(),
{
}

/// A record holds, in the field of each column that the line has, the token
/// of that column; the field of a column that the line lacks is empty.
pub proof fn lemma_record_columns(layout: Layout, tokens: Seq<Seq<char>>, k: int, f: Field)
    requires
        layout.column(k) == Some(f),
    ensures
        k < tokens.len() ==> layout.record_of(tokens).get(f) == tokens[k],
        k >= tokens.len() ==> layout.record_of(tokens).get(f) == Seq::<char>::empty(),
{
    lemma_column_position(layout, k, f);
}

} // verus!
