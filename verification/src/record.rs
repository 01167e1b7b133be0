//! The job record: one accounting entry, every field kept as the text that
//! the accounting tool printed.

use vstd::prelude::*;
use vstd::string::*;

use crate::text::{padded, push_padded, views};

verus! {

/// The fields a job record can hold. Which of them a given input fills is
/// decided by the layout it was read under; the others stay empty.
#[derive(Debug, Clone, Copy, PartialEq, Eq, Structural)]
pub enum Field {
    JobId,
    JobName,
    User,
    Account,
    Partition,
    State,
    ExitCode,
    Start,
    End,
    Submit,
    Elapsed,
    TimeLimit,
    NNodes,
    AllocCpus,
    ReqCpus,
    NodeList,
    ReqMem,
    MaxRss,
    UserCpu,
    WorkDir,
}

/// One accounting entry for a job or a job step. Every field is the raw text
/// of the input: no time, duration, count or state is interpreted. A field
/// that the input did not carry is the empty string.
#[derive(Debug)]
pub struct SacctData {
    pub job_id: String,
    pub job_name: String,
    pub user: String,
    pub account: String,
    pub partition: String,
    pub state: String,
    pub exit_code: String,
    pub start: String,
    pub end: String,
    pub submit: String,
    pub elapsed: String,
    pub time_limit: String,
    pub n_nodes: String,
    pub alloc_cpus: String,
    pub req_cpus: String,
    pub node_list: String,
    pub req_mem: String,
    pub max_rss: String,
    pub user_cpu: String,
    pub work_dir: String,
}

/// The mathematical value of a job record: each field as a sequence of
/// characters.
pub struct Record {
    pub job_id: Seq<char>,
    pub job_name: Seq<char>,
    pub user: Seq<char>,
    pub account: Seq<char>,
    pub partition: Seq<char>,
    pub state: Seq<char>,
    pub exit_code: Seq<char>,
    pub start: Seq<char>,
    pub end: Seq<char>,
    pub submit: Seq<char>,
    pub elapsed: Seq<char>,
    pub time_limit: Seq<char>,
    pub n_nodes: Seq<char>,
    pub alloc_cpus: Seq<char>,
    pub req_cpus: Seq<char>,
    pub node_list: Seq<char>,
    pub req_mem: Seq<char>,
    pub max_rss: Seq<char>,
    pub user_cpu: Seq<char>,
    pub work_dir: Seq<char>,
}

impl Record {
    /// The text of field `f`.
    pub open spec fn get(self, f: Field) -> Seq<char> {
        match f {
            Field::JobId => self.job_id,
            Field::JobName => self.job_name,
            Field::User => self.user,
            Field::Account => self.account,
            Field::Partition => self.partition,
            Field::State => self.state,
            Field::ExitCode => self.exit_code,
            Field::Start => self.start,
            Field::End => self.end,
            Field::Submit => self.submit,
            Field::Elapsed => self.elapsed,
            Field::TimeLimit => self.time_limit,
            Field::NNodes => self.n_nodes,
            Field::AllocCpus => self.alloc_cpus,
            Field::ReqCpus => self.req_cpus,
            Field::NodeList => self.node_list,
            Field::ReqMem => self.req_mem,
            Field::MaxRss => self.max_rss,
            Field::UserCpu => self.user_cpu,
            Field::WorkDir => self.work_dir,
        }
    }

    /// The line that stands for this record in the job list: job id, name,
    /// state, elapsed time and user, each filled up with blanks to its
    /// column's width and one blank between two columns.
    pub open spec fn display_line(self) -> Seq<char> {
        padded(self.job_id, 12) + seq![' '] + padded(self.job_name, 20) + seq![' '] + padded(
            self.state,
            10,
        ) + seq![' '] + padded(self.elapsed, 12) + seq![' '] + padded(self.user, 8)
    }

    /// Every field of this record as a labelled line, in the order of the
    /// detail popup.
    pub open spec fn detail_lines(self) -> Seq<Seq<char>> {
        seq![
            entry("Job ID"@, self.job_id),
            entry("Job Name"@, self.job_name),
            entry("Partition"@, self.partition),
            entry("Account"@, self.account),
            entry("Allocated CPUs"@, self.alloc_cpus),
            entry("State"@, self.state),
            entry("Exit Code"@, self.exit_code),
            entry("Start Time"@, self.start),
            entry("End Time"@, self.end),
            entry("Elapsed"@, self.elapsed),
            entry("Time Limit"@, self.time_limit),
            entry("Submit Time"@, self.submit),
            entry("User"@, self.user),
            entry("Work Directory"@, self.work_dir),
            entry("Nodes"@, self.n_nodes),
            entry("Node List"@, self.node_list),
            entry("Requested CPUs"@, self.req_cpus),
            entry("Requested Memory"@, self.req_mem),
            entry("Max RSS"@, self.max_rss),
            entry("User CPU"@, self.user_cpu),
        ]
    }
}

/// A labelled line: the label, a colon, a blank, the value.
pub open spec fn entry(label: Seq<char>, value: Seq<char>) -> Seq<char> {
    label + ": "@ + value
}

/// The lines one after the other, a line feed between two of them.
pub open spec fn joined(lines: Seq<Seq<char>>) -> Seq<char>
    decreases lines.len(),
{
    if lines.len() == 0 {
        Seq::empty()
    } else if lines.len() == 1 {
        lines[0]
    } else {
        joined(lines.drop_last()) + seq!['\n'] + lines.last()
    }
}

impl View for SacctData {
    type V = Record;

    open spec fn view(&self) -> Record {
        Record {
            job_id: self.job_id@,
            job_name: self.job_name@,
            user: self.user@,
            account: self.account@,
            partition: self.partition@,
            state: self.state@,
            exit_code: self.exit_code@,
            start: self.start@,
            end: self.end@,
            submit: self.submit@,
            elapsed: self.elapsed@,
            time_limit: self.time_limit@,
            n_nodes: self.n_nodes@,
            alloc_cpus: self.alloc_cpus@,
            req_cpus: self.req_cpus@,
            node_list: self.node_list@,
            req_mem: self.req_mem@,
            max_rss: self.max_rss@,
            user_cpu: self.user_cpu@,
            work_dir: self.work_dir@,
        }
    }
}

/// The views of a sequence of records, one by one.
pub open spec fn records_view(v: Seq<SacctData>) -> Seq<Record> {
    Seq::new(v.len(), |i: int| v[i]@)
}

/// Pushing a record onto a vector pushes its view onto the vector's views.
pub proof fn lemma_records_view_push(v: Seq<SacctData>, r: SacctData)
    ensures
        records_view(v.push(r)) == records_view(v).push(r@),
{
    assert(records_view(v.push(r)) =~= records_view(v).push(r@));
}

fn labelled(label: &str, value: &String) -> (line: String)
    ensures
        line@ == entry(label@, value@),
{
    let mut line = String::new();
    line.append(label);
    line.append(": ");
    line.append(value.as_str());
    assert(line@ =~= entry(label@, value@));
    line
}

impl Record {
    /// The record whose fields are all empty.
    pub open spec fn blank() -> Record {
        Record {
            job_id: Seq::empty(),
            job_name: Seq::empty(),
            user: Seq::empty(),
            account: Seq::empty(),
            partition: Seq::empty(),
            state: Seq::empty(),
            exit_code: Seq::empty(),
            start: Seq::empty(),
            end: Seq::empty(),
            submit: Seq::empty(),
            elapsed: Seq::empty(),
            time_limit: Seq::empty(),
            n_nodes: Seq::empty(),
            alloc_cpus: Seq::empty(),
            req_cpus: Seq::empty(),
            node_list: Seq::empty(),
            req_mem: Seq::empty(),
            max_rss: Seq::empty(),
            user_cpu: Seq::empty(),
            work_dir: Seq::empty(),
        }
    }
}

impl Default for SacctData {
    /// The record whose fields are all empty.
    fn default() -> (r: Self)
        ensures
            r@ == Record::blank(),
    {
        SacctData {
            job_id: String::new(),
            job_name: String::new(),
            user: String::new(),
            account: String::new(),
            partition: String::new(),
            state: String::new(),
            exit_code: String::new(),
            start: String::new(),
            end: String::new(),
            submit: String::new(),
            elapsed: String::new(),
            time_limit: String::new(),
            n_nodes: String::new(),
            alloc_cpus: String::new(),
            req_cpus: String::new(),
            node_list: String::new(),
            req_mem: String::new(),
            max_rss: String::new(),
            user_cpu: String::new(),
            work_dir: String::new(),
        }
    }
}

impl Clone for SacctData {
    fn clone(&self) -> (r: Self)
        ensures
            r@ == self@,
    {
        SacctData {
            job_id: self.job_id.clone(),
            job_name: self.job_name.clone(),
            user: self.user.clone(),
            account: self.account.clone(),
            partition: self.partition.clone(),
            state: self.state.clone(),
            exit_code: self.exit_code.clone(),
            start: self.start.clone(),
            end: self.end.clone(),
            submit: self.submit.clone(),
            elapsed: self.elapsed.clone(),
            time_limit: self.time_limit.clone(),
            n_nodes: self.n_nodes.clone(),
            alloc_cpus: self.alloc_cpus.clone(),
            req_cpus: self.req_cpus.clone(),
            node_list: self.node_list.clone(),
            req_mem: self.req_mem.clone(),
            max_rss: self.max_rss.clone(),
            user_cpu: self.user_cpu.clone(),
            work_dir: self.work_dir.clone(),
        }
    }
}

impl SacctData {
    /// The text of field `f`.
    pub fn get(&self, f: Field) -> (s: &String)
        ensures
            s@ == self@.get(f),
    {
        match f {
            Field::JobId => &self.job_id,
            Field::JobName => &self.job_name,
            Field::User => &self.user,
            Field::Account => &self.account,
            Field::Partition => &self.partition,
            Field::State => &self.state,
            Field::ExitCode => &self.exit_code,
            Field::Start => &self.start,
            Field::End => &self.end,
            Field::Submit => &self.submit,
            Field::Elapsed => &self.elapsed,
            Field::TimeLimit => &self.time_limit,
            Field::NNodes => &self.n_nodes,
            Field::AllocCpus => &self.alloc_cpus,
            Field::ReqCpus => &self.req_cpus,
            Field::NodeList => &self.node_list,
            Field::ReqMem => &self.req_mem,
            Field::MaxRss => &self.max_rss,
            Field::UserCpu => &self.user_cpu,
            Field::WorkDir => &self.work_dir,
        }
    }

    /// The line that stands for this record in the job list.
    pub fn display_line(&self) -> (line: String)
        ensures
            line@ == self@.display_line(),
    {
        let mut line = String::new();
        push_padded(&mut line, self.job_id.as_str(), 12);
        line.append(" ");
        push_padded(&mut line, self.job_name.as_str(), 20);
        line.append(" ");
        push_padded(&mut line, self.state.as_str(), 10);
        line.append(" ");
        push_padded(&mut line, self.elapsed.as_str(), 12);
        line.append(" ");
        push_padded(&mut line, self.user.as_str(), 8);
        proof {
            reveal_strlit(" ");
            assert(" "@ =~= seq![' ']);
            assert(line@ =~= self@.display_line());
        }
        line
    }

    /// Every field of this record as a labelled line.
    pub fn detail_lines(&self) -> (lines: Vec<String>)
        ensures
            views(lines@) == self@.detail_lines(),
    {
        let mut lines: Vec<String> = Vec::new();
        lines.push(labelled("Job ID", &self.job_id));
        lines.push(labelled("Job Name", &self.job_name));
        lines.push(labelled("Partition", &self.partition));
        lines.push(labelled("Account", &self.account));
        lines.push(labelled("Allocated CPUs", &self.alloc_cpus));
        lines.push(labelled("State", &self.state));
        lines.push(labelled("Exit Code", &self.exit_code));
        lines.push(labelled("Start Time", &self.start));
        lines.push(labelled("End Time", &self.end));
        lines.push(labelled("Elapsed", &self.elapsed));
        lines.push(labelled("Time Limit", &self.time_limit));
        lines.push(labelled("Submit Time", &self.submit));
        lines.push(labelled("User", &self.user));
        lines.push(labelled("Work Directory", &self.work_dir));
        lines.push(labelled("Nodes", &self.n_nodes));
        lines.push(labelled("Node List", &self.node_list));
        lines.push(labelled("Requested CPUs", &self.req_cpus));
        lines.push(labelled("Requested Memory", &self.req_mem));
        lines.push(labelled("Max RSS", &self.max_rss));
        lines.push(labelled("User CPU", &self.user_cpu));
        assert(views(lines@) =~= self@.detail_lines());
        lines
    }

    /// The text of the detail popup: every field as a labelled line.
    pub fn detail_text(&self) -> (text: String)
        ensures
            text@ == joined(self@.detail_lines()),
    {
        let lines = self.detail_lines();
        let mut text = String::new();
        let mut i: usize = 0;
        while i < lines.len()
            invariant
                i <= lines.len(),
                text@ == joined(views(lines@).take(i as int)),
            decreases lines.len() - i,
        {
            if i > 0 {
                text.append("\n");
            }
            text.append(lines[i].as_str());
            i = i + 1;
            proof {
                reveal_strlit("\n");
                assert("\n"@ =~= seq!['\n']);
                let now = views(lines@).take(i as int);
                assert(now.drop_last() =~= views(lines@).take(i - 1));
                assert(now.last() == lines@[i - 1]@);
            }
        }
        assert(views(lines@).take(lines.len() as int) =~= views(lines@));
        text
    }
}

} // verus!
