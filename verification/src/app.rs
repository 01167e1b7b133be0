//! The state of the viewer: the records, the cursor in the list, and whether
//! the user asked to leave; and what of it is shown.

use vstd::prelude::*;
use vstd::string::*;

use crate::layout::Layout;
use crate::parser::ParseStrategy;
use crate::record::{joined, records_view, Record, SacctData};
use crate::source::{fetch_view, loaded, records_from_fetch, FetchError, LoadError};
use crate::text::{decimal, push_decimal};

verus! {

/// The viewer's state as a mathematical value.
pub struct AppState {
    /// The records, in the order in which the source gave them.
    pub records: Seq<Record>,
    /// The index of the selected record.
    pub selection: nat,
    /// Whether the user asked to leave.
    pub quit: bool,
}

/// A key of the keyboard, as far as the viewer tells keys apart.
#[derive(Debug, Clone, Copy, PartialEq, Eq, Structural)]
pub enum Key {
    Char(char),
    Up,
    Down,
    Other,
}

impl AppState {
    /// The selection points at a record, or is 0 where there is none.
    pub open spec fn wf(self) -> bool {
        if self.records.len() == 0 {
            self.selection == 0
        } else {
            self.selection < self.records.len()
        }
    }

    /// The state after the cursor went one record down, from the last
    /// record around to the first. Without records nothing changes.
    pub open spec fn advanced(self) -> AppState {
        if self.records.len() == 0 {
            self
        } else {
            AppState { selection: ((self.selection + 1) as nat) % self.records.len(), ..self }
        }
    }

    /// The state after the cursor went one record up, from the first record
    /// around to the last. Without records nothing changes.
    pub open spec fn retreated(self) -> AppState {
        if self.records.len() == 0 {
            self
        } else if self.selection == 0 {
            AppState { selection: (self.records.len() - 1) as nat, ..self }
        } else {
            AppState { selection: (self.selection - 1) as nat, ..self }
        }
    }

    /// The state after the user asked to leave.
    pub open spec fn quitting(self) -> AppState {
        AppState { quit: true, ..self }
    }

    /// The state after `n` steps down.
    pub open spec fn advanced_by(self, n: nat) -> AppState
        decreases n,
    {
        if n == 0 {
            self
        } else {
            self.advanced_by((n - 1) as nat).advanced()
        }
    }

    /// The state after a key: `q` asks to leave, the down arrow and `j` go
    /// one record down, the up arrow and `k` one record up, and any other
    /// key changes nothing.
    pub open spec fn after_key(self, key: Key) -> AppState {
        match key {
            Key::Char(c) => if c == 'q' {
                self.quitting()
            } else if c == 'j' {
                self.advanced()
            } else if c == 'k' {
                self.retreated()
            } else {
                self
            },
            Key::Down => self.advanced(),
            Key::Up => self.retreated(),
            Key::Other => self,
        }
    }

    /// The state after new records replaced the old ones: the cursor is on
    /// the first of them.
    pub open spec fn replaced(self, records: Seq<Record>) -> AppState {
        AppState { records, selection: 0, quit: self.quit }
    }

    /// The title of the list: the number of the selected record, counted
    /// from 1, and the number of records.
    pub open spec fn list_title(self) -> Seq<char> {
        "Jobs ("@ + decimal(self.selection + 1) + "/"@ + decimal(self.records.len()) + ")"@
    }

    /// The text of the detail popup. There is a popup only where there is a
    /// record to show.
    pub open spec fn details(self) -> Option<Seq<char>> {
        if self.selection < self.records.len() {
            Some(joined(self.records[self.selection as int].detail_lines()))
        } else {
            None
        }
    }
}

/// One line of the list as it is shown.
#[derive(Debug)]
pub struct ListRow {
    pub text: String,
    pub highlighted: bool,
}

/// The viewer's state.
pub struct App {
    jobs: Vec<SacctData>,
    selected: usize,
    should_quit: bool,
}

impl View for App {
    type V = AppState;

    closed spec fn view(&self) -> AppState {
        AppState {
            records: records_view(self.jobs@),
            selection: self.selected as nat,
            quit: self.should_quit,
        }
    }
}

impl Default for App {
    /// A state without records, the user not having asked to leave.
    fn default() -> (app: App)
        ensures
            app@ == (AppState { records: Seq::empty(), selection: 0, quit: false }),
    {
        App::new()
    }
}

impl App {
    #[verifier::type_invariant]
    spec fn inv(self) -> bool {
        if self.jobs@.len() == 0 {
            self.selected == 0
        } else {
            self.selected < self.jobs@.len()
        }
    }

    /// A state without records, the user not having asked to leave.
    pub fn new() -> (app: App)
        ensures
            app@ == (AppState { records: Seq::empty(), selection: 0, quit: false }),
            app@.wf(),
    {
        let app = App { jobs: Vec::new(), selected: 0, should_quit: false };
        assert(app@.records =~= Seq::empty());
        app
    }

    /// Replaces the records wholesale and puts the cursor on the first.
    pub fn set_jobs(&mut self, jobs: Vec<SacctData>)
        ensures
            final(self)@ == old(self)@.replaced(records_view(jobs@)),
            final(self)@.wf(),
    {
        let quit = self.should_quit;
        *self = App { jobs, selected: 0, should_quit: quit };
    }

    /// Takes in what was fetched. On success the parsed records replace the
    /// old ones; on failure the state stays as it was and the failure is
    /// handed back.
    pub fn load_jobs(
        &mut self,
        fetched: Result<String, FetchError>,
        strategy: ParseStrategy,
        layout: Layout,
    ) -> (r: Result<(), LoadError>)
        ensures
            match loaded(fetch_view(fetched), strategy, layout) {
                Ok(records) => r is Ok && final(self)@ == old(self)@.replaced(records),
                Err(e) => r is Err && r->Err_0@ == e && final(self)@ == old(self)@,
            },
            final(self)@.wf(),
    {
        proof {
            use_type_invariant(&*self);
        }
        match records_from_fetch(fetched, strategy, layout) {
            Ok(jobs) => {
                self.set_jobs(jobs);
                Ok(())
            },
            Err(e) => Err(e),
        }
    }

    /// Moves the cursor one record down, around to the first after the
    /// last.
    pub fn next(&mut self)
        ensures
            final(self)@ == old(self)@.advanced(),
            old(self)@.wf(),
            final(self)@.wf(),
    {
        proof {
            use_type_invariant(&*self);
        }
        let len = self.jobs.len();
        if len > 0 {
            self.selected = (self.selected + 1) % len;
        }
    }

    /// Moves the cursor one record up, around to the last before the first.
    pub fn previous(&mut self)
        ensures
            final(self)@ == old(self)@.retreated(),
            old(self)@.wf(),
            final(self)@.wf(),
    {
        proof {
            use_type_invariant(&*self);
        }
        let len = self.jobs.len();
        if len > 0 {
            self.selected = if self.selected == 0 {
                len - 1
            } else {
                self.selected - 1
            };
        }
    }

    /// Notes that the user asked to leave.
    pub fn quit(&mut self)
        ensures
            final(self)@ == old(self)@.quitting(),
            final(self)@.wf(),
    {
        proof {
            use_type_invariant(&*self);
        }
        self.should_quit = true;
    }

    /// Applies one key.
    pub fn handle_key(&mut self, key: Key)
        ensures
            final(self)@ == old(self)@.after_key(key),
            final(self)@.wf(),
    {
        proof {
            use_type_invariant(&*self);
        }
        match key {
            Key::Char(c) => {
                if c == 'q' {
                    self.quit();
                } else if c == 'j' {
                    self.next();
                } else if c == 'k' {
                    self.previous();
                }
            },
            Key::Down => self.next(),
            Key::Up => self.previous(),
            Key::Other => {},
        }
    }

    /// The records.
    pub fn jobs(&self) -> (jobs: &Vec<SacctData>)
        ensures
            records_view(jobs@) == self@.records,
    {
        &self.jobs
    }

    /// The index of the selected record.
    pub fn selected(&self) -> (index: usize)
        ensures
            index == self@.selection,
            self@.wf(),
    {
        proof {
            use_type_invariant(self);
        }
        self.selected
    }

    /// Whether the user asked to leave.
    pub fn should_quit(&self) -> (quit: bool)
        ensures
            quit == self@.quit,
    {
        self.should_quit
    }

    /// The selected record, if there is a record at all.
    pub fn selected_job(&self) -> (job: Option<&SacctData>)
        ensures
            match job {
                Some(record) => self@.selection < self@.records.len() && record@
                    == self@.records[self@.selection as int],
                None => self@.records.len() == 0,
            },
    {
        proof {
            use_type_invariant(self);
        }
        if self.jobs.is_empty() {
            None
        } else {
            Some(&self.jobs[self.selected])
        }
    }

    /// The title of the list.
    pub fn list_title(&self) -> (title: String)
        ensures
            title@ == self@.list_title(),
    {
        proof {
            use_type_invariant(self);
        }
        let len = self.jobs.len();
        let mut title = String::new();
        title.append("Jobs (");
        push_decimal(&mut title, (self.selected + 1) as u64);
        title.append("/");
        push_decimal(&mut title, len as u64);
        title.append(")");
        assert(title@ =~= self@.list_title());
        title
    }

    /// The lines of the list, the selected one marked.
    pub fn list_rows(&self) -> (rows: Vec<ListRow>)
        ensures
            rows@.len() == self@.records.len(),
            forall|i: int|
                0 <= i < rows@.len() ==> (#[trigger] rows@[i]).text@
                    == self@.records[i].display_line() && rows@[i].highlighted == (i
                    == self@.selection),
    {
        let mut rows: Vec<ListRow> = Vec::new();
        let mut i: usize = 0;
        while i < self.jobs.len()
            invariant
                i <= self.jobs.len(),
                rows@.len() == i,
                forall|j: int|
                    0 <= j < i ==> (#[trigger] rows@[j]).text@ == self.jobs@[j]@.display_line()
                        && rows@[j].highlighted == (j == self.selected),
            decreases self.jobs.len() - i,
        {
            let text = self.jobs[i].display_line();
            rows.push(ListRow { text, highlighted: i == self.selected });
            i = i + 1;
        }
        rows
    }

    /// The text of the detail popup, if there is a record to show.
    pub fn details(&self) -> (text: Option<String>)
        ensures
            match text {
                Some(t) => self@.details() == Some(t@),
                None => self@.details() is None,
            },
    {
        proof {
            use_type_invariant(self);
        }
        if self.jobs.is_empty() {
            None
        } else {
            Some(self.jobs[self.selected].detail_text())
        }
    }
}

/// The three shares, in percent, into which one side of the screen is cut
/// so that a popup of `percent` percent sits in the middle: what is left,
/// halved and rounded down, on either side of it.
pub fn popup_shares(percent: u16) -> (shares: (u16, u16, u16))
    requires
        percent <= 100,
    ensures
        shares == (((100 - percent) / 2) as u16, percent, ((100 - percent) / 2) as u16),
{
    let margin: u16 = (100 - percent) / 2;
    (margin, percent, margin)
}

/// One step down, written without a remainder: the next record, or the
/// first after the last.
pub proof fn lemma_advanced(s: AppState)
    requires
        s.wf(),
        s.records.len() > 0,
    ensures
        s.advanced() == (AppState {
            selection: if s.selection + 1 < s.records.len() {
                s.selection + 1
            } else {
                0
            },
            ..s
        }),
        s.advanced().wf(),
{
    let len = s.records.len();
    if s.selection + 1 < len {
        vstd::arithmetic::div_mod::lemma_small_mod((s.selection + 1) as nat, len);
    } else {
        vstd::arithmetic::div_mod::lemma_mod_self_0(len as int);
    }
}

/// After `k` steps down, with `k` no more than the number of records, the
/// cursor is `k` records further on, the count taken around the end, and
/// nothing else has changed.
pub proof fn lemma_advanced_by(s: AppState, k: nat)
    requires
        s.wf(),
        s.records.len() > 0,
        k <= s.records.len(),
    ensures
        s.advanced_by(k) == (AppState {
            selection: if s.selection + k < s.records.len() {
                s.selection + k
            } else {
                (s.selection + k - s.records.len()) as nat
            },
            ..s
        }),
    decreases k,
{
    if k > 0 {
        lemma_advanced_by(s, (k - 1) as nat);
        lemma_advanced(s.advanced_by((k - 1) as nat));
    }
}

/// Going down as many times as there are records brings the cursor back to
/// where it was.
pub proof fn law_advance_comes_round(s: AppState)
    requires
        s.wf(),
        s.records.len() > 0,
    ensures
        s.advanced_by(s.records.len()) == s,
{
    lemma_advanced_by(s, s.records.len());
}

/// Going up undoes going down, and going down undoes going up.
pub proof fn law_retreat_undoes_advance(s: AppState)
    requires
        s.wf(),
        s.records.len() > 0,
    ensures
        s.advanced().retreated() == s,
        s.retreated().advanced() == s,
        s.advanced().wf(),
        s.retreated().wf(),
{
    lemma_advanced(s);
    lemma_advanced(s.retreated());
}

/// Without records, going down and going up change nothing, and the cursor
/// stays at 0.
pub proof fn law_empty_list_stays(s: AppState)
    requires
        s.wf(),
        s.records.len() == 0,
    ensures
        s.advanced() == s,
        s.retreated() == s,
        s.selection == 0,
        s.details() is None,
{
}

} // verus!
