//! A run over several inputs: which columns are shown, what is reported for
//! each input, the running total, and the line that closes the run.

use crate::counts::{lemma_total_prefix_le, total, Counts, FileInfo};
use crate::render::fields;
use vstd::prelude::*;
use vstd::string::{StrSliceExecFns, StringExecFns};

verus! {

/// Which columns are shown.
#[derive(Debug, Clone, Copy, PartialEq, Eq, Structural)]
pub struct Selection {
    pub lines: bool,
    pub words: bool,
    pub chars: bool,
}

impl Selection {
    /// No column asked for.
    pub open spec fn none() -> Selection {
        Selection { lines: false, words: false, chars: false }
    }

    /// All three columns asked for.
    pub open spec fn all() -> Selection {
        Selection { lines: true, words: true, chars: true }
    }

    /// The selection that is in force: where no column is asked for, all
    /// three are shown.
    pub open spec fn resolved(self) -> Selection {
        if self == Selection::none() {
            Selection::all()
        } else {
            self
        }
    }

    /// The selection that is in force for what the caller asked for.
    pub fn normalized(self) -> (sel: Selection)
        ensures
            sel == self.resolved(),
    {
        if !self.lines && !self.words && !self.chars {
            Selection { lines: true, words: true, chars: true }
        } else {
            self
        }
    }
}

/// Where an input is read from.
#[derive(Debug, Clone, Copy, PartialEq, Eq, Structural)]
pub enum Source {
    /// The standard input, named `-`.
    Stdin,
    /// The file at the path that the name gives.
    File,
}

/// The name that stands for the standard input.
pub open spec fn stdin_name() -> Seq<char> {
    seq!['-']
}

impl Source {
    /// The source that an input's name stands for.
    pub fn of(name: &str) -> (source: Source)
        ensures
            source == (if name@ == stdin_name() {
                Source::Stdin
            } else {
                Source::File
            }),
    {
        if name.unicode_len() == 1 && name.get_char(0) == '-' {
            assert(name@ =~= stdin_name());
            Source::Stdin
        } else {
            Source::File
        }
    }
}

/// The inputs of a run for the names that the caller gave: the names
/// themselves, or the standard input alone where none was given.
pub open spec fn inputs_for(names: Seq<Seq<char>>) -> Seq<Seq<char>> {
    if names.len() == 0 {
        seq![stdin_name()]
    } else {
        names
    }
}

/// The inputs of a run for the names that the caller gave, in their order.
pub fn resolve_inputs(names: Vec<String>) -> (inputs: Vec<String>)
    ensures
        inputs.deep_view() == inputs_for(names.deep_view()),
{
    if names.len() == 0 {
        let mut inputs: Vec<String> = Vec::new();
        proof {
            reveal_strlit("-");
        }
        let name = String::from_str("-");
        assert(name@ =~= stdin_name());
        inputs.push(name);
        assert(inputs.deep_view() =~= seq![stdin_name()]);
        assert(names.deep_view().len() == 0);
        inputs
    } else {
        assert(names.deep_view().len() == names.len());
        names
    }
}

/// One input of a run and what its scan gave: its record, or the reason why
/// it could not be read.
#[derive(Debug)]
pub struct Entry {
    pub name: String,
    pub outcome: Result<FileInfo, String>,
}

/// An entry as plain values.
pub struct EntryView {
    pub name: Seq<char>,
    pub outcome: Result<Counts, Seq<char>>,
}

impl View for Entry {
    type V = EntryView;

    open spec fn view(&self) -> EntryView {
        EntryView {
            name: self.name@,
            outcome: match self.outcome {
                Ok(info) => Ok(info@),
                Err(reason) => Err(reason@),
            },
        }
    }
}

/// One line of a run's output.
#[derive(Debug)]
pub enum Report {
    /// The record of an input that was scanned.
    Counted { name: String, info: FileInfo },
    /// The reason why an input could not be scanned.
    Failed { name: String, reason: String },
    /// The sum over the inputs that were scanned.
    Total { info: FileInfo },
}

/// A line of output as plain values.
pub enum ReportView {
    Counted { name: Seq<char>, counts: Counts },
    Failed { name: Seq<char>, reason: Seq<char> },
    Total { counts: Counts },
}

impl View for Report {
    type V = ReportView;

    open spec fn view(&self) -> ReportView {
        match self {
            Report::Counted { name, info } => ReportView::Counted { name: name@, counts: info@ },
            Report::Failed { name, reason } => ReportView::Failed { name: name@, reason: reason@ },
            Report::Total { info } => ReportView::Total { counts: info@ },
        }
    }
}

impl ReportView {
    /// The text of the line under a selection of columns. A record is
    /// followed by a space and its input's name, the sum by a space and the
    /// word `total`; a failure is the input's name, a colon, a space and the
    /// reason.
    pub open spec fn text(self, sel: Selection) -> Seq<char> {
        match self {
            ReportView::Counted { name, counts } => fields(
                counts,
                sel.lines,
                sel.words,
                sel.chars,
            ) + seq![' '] + name,
            ReportView::Failed { name, reason } => name + seq![':', ' '] + reason,
            ReportView::Total { counts } => fields(counts, sel.lines, sel.words, sel.chars)
                + seq![' ', 't', 'o', 't', 'a', 'l'],
        }
    }
}

impl Report {
    /// Whether the line belongs on the error stream.
    pub fn is_diagnostic(&self) -> (b: bool)
        ensures
            b == (self@ is Failed),
    {
        match self {
            Report::Failed { .. } => true,
            _ => false,
        }
    }

    /// The text of the line under a selection of columns.
    pub fn render(&self, sel: Selection) -> (out: String)
        ensures
            out@ == self@.text(sel),
    {
        match self {
            Report::Counted { name, info } => {
                let mut out = info.format(sel.lines, sel.words, sel.chars);
                proof {
                    reveal_strlit(" ");
                }
                out.append(" ");
                out.append(name.as_str());
                assert(out@ =~= self@.text(sel));
                out
            },
            Report::Failed { name, reason } => {
                let mut out = name.clone();
                proof {
                    reveal_strlit(": ");
                }
                out.append(": ");
                out.append(reason.as_str());
                assert(out@ =~= self@.text(sel));
                out
            },
            Report::Total { info } => {
                let mut out = info.format(sel.lines, sel.words, sel.chars);
                proof {
                    reveal_strlit(" total");
                }
                out.append(" total");
                assert(out@ =~= self@.text(sel));
                out
            },
        }
    }
}

/// What an entry adds to the sum of a run: its record, or nothing where the
/// input could not be scanned.
pub open spec fn contribution(entry: EntryView) -> Counts {
    match entry.outcome {
        Ok(counts) => counts,
        Err(_) => Counts::zero(),
    }
}

/// What each entry of a run adds to its sum.
pub open spec fn contributions(entries: Seq<EntryView>) -> Seq<Counts> {
    Seq::new(entries.len(), |i: int| contribution(entries[i]))
}

/// The sum of a run: of the records of the inputs that were scanned.
pub open spec fn run_total(entries: Seq<EntryView>) -> Counts {
    total(contributions(entries))
}

/// The line that reports one entry.
pub open spec fn report_of(entry: EntryView) -> ReportView {
    match entry.outcome {
        Ok(counts) => ReportView::Counted { name: entry.name, counts },
        Err(reason) => ReportView::Failed { name: entry.name, reason },
    }
}

/// The line that closes a run over `inputs` inputs with the sum `sum`: none
/// for a single input or none at all, the sum for two or more.
pub open spec fn closing(inputs: nat, sum: Counts) -> Option<ReportView> {
    if inputs > 1 {
        Some(ReportView::Total { counts: sum })
    } else {
        None
    }
}

/// The output of a run: one line for each entry, in order, and then the
/// closing line if there is one.
pub open spec fn run_reports(entries: Seq<EntryView>) -> Seq<ReportView> {
    Seq::new(entries.len(), |i: int| report_of(entries[i])) + match closing(
        entries.len(),
        run_total(entries),
    ) {
        Some(line) => seq![line],
        None => Seq::empty(),
    }
}

/// A scanned input adds its record to the sum of a run; an input that
/// could not be scanned adds nothing.
pub proof fn lemma_run_total_push(entries: Seq<EntryView>, entry: EntryView)
    ensures
        run_total(entries.push(entry)) == (match entry.outcome {
            Ok(counts) => run_total(entries).plus(counts),
            Err(_) => run_total(entries),
        }),
{
    let c = contributions(entries.push(entry));
    assert(c.drop_last() =~= contributions(entries));
}

/// A run over fewer than two inputs has no line for the sum. A run over two
/// or more has exactly one: it is the last line, and it holds the sum of the
/// records of the inputs that were scanned.
pub proof fn lemma_total_line(entries: Seq<EntryView>)
    ensures
        entries.len() < 2 ==> run_reports(entries).len() == entries.len(),
        entries.len() >= 2 ==> run_reports(entries).len() == entries.len() + 1
            && run_reports(entries).last() == (ReportView::Total { counts: run_total(entries) }),
        forall|i: int| 0 <= i < entries.len() ==> !(#[trigger] run_reports(entries)[i] is Total),
{
}

/// Every line reads the same whether no column was asked for or all three.
pub proof fn lemma_no_flags_shows_all(report: ReportView)
    ensures
        report.text(Selection::none().resolved()) == report.text(Selection::all().resolved()),
{
}

/// The views of a sequence of entries.
pub open spec fn entry_views(entries: Seq<Entry>) -> Seq<EntryView> {
    Seq::new(entries.len(), |i: int| entries[i]@)
}

/// The views of a sequence of reports.
pub open spec fn report_views(reports: Seq<Report>) -> Seq<ReportView> {
    Seq::new(reports.len(), |i: int| reports[i]@)
}

/// The state of a run: the number of inputs it was started for, and the sum
/// of the records reported so far.
#[derive(Debug)]
pub struct Tally {
    pub inputs: usize,
    pub total: FileInfo,
}

impl Tally {
    /// The state of a run over `inputs` inputs before the first is scanned.
    pub fn new(inputs: usize) -> (tally: Tally)
        ensures
            tally.inputs == inputs,
            tally.total@ == Counts::zero(),
    {
        Tally { inputs, total: FileInfo::default() }
    }

    /// Whether the outcome of a scan can be recorded with the sum still in
    /// range.
    pub fn can_record(&self, outcome: &Result<FileInfo, String>) -> (ok: bool)
        ensures
            ok == (outcome matches Ok(info) ==> self.total@.plus(info@).fits()),
    {
        match outcome {
            Ok(info) => self.total.can_add(info),
            Err(_) => true,
        }
    }

    /// Takes the outcome of the scan of one input: a record is added to the
    /// sum, a failure leaves the sum as it is. Returns the line to report.
    pub fn record(&mut self, entry: Entry) -> (report: Report)
        requires
            entry.outcome matches Ok(info) ==> old(self).total@.plus(info@).fits(),
        ensures
            report@ == report_of(entry@),
            final(self).inputs == old(self).inputs,
            final(self).total@ == old(self).total@.plus(contribution(entry@)),
    {
        let Entry { name, outcome } = entry;
        match outcome {
            Ok(info) => {
                self.total.add_assign(info);
                Report::Counted { name, info }
            },
            Err(reason) => Report::Failed { name, reason },
        }
    }

    /// The line that closes the run, if it has one.
    pub fn finish(&self) -> (last: Option<Report>)
        ensures
            (match last {
                Some(report) => Some(report@),
                None => None,
            }) == closing(self.inputs as nat, self.total@),
    {
        if self.inputs > 1 {
            Some(Report::Total { info: self.total })
        } else {
            None
        }
    }
}

impl Clone for Entry {
    fn clone(&self) -> (copy: Entry)
        ensures
            copy@ == self@,
    {
        Entry {
            name: self.name.clone(),
            outcome: match &self.outcome {
                Ok(info) => Ok(*info),
                Err(reason) => Err(reason.clone()),
            },
        }
    }
}

/// The output of a run over inputs that have all been scanned.
pub fn run(entries: &Vec<Entry>) -> (reports: Vec<Report>)
    requires
        run_total(entry_views(entries@)).fits(),
    ensures
        report_views(reports@) == run_reports(entry_views(entries@)),
{
    let ghost all = entry_views(entries@);
    let n = entries.len();
    let mut tally = Tally::new(n);
    let mut reports: Vec<Report> = Vec::new();
    let mut i: usize = 0;
    assert(contributions(all).take(0) =~= Seq::<Counts>::empty());
    while i < n
        invariant
            i <= n,
            n == entries@.len(),
            all == entry_views(entries@),
            tally.inputs == n,
            run_total(all).fits(),
            tally.total@ == total(contributions(all).take(i as int)),
            reports@.len() == i,
            forall|j: int| 0 <= j < i ==> (#[trigger] reports@[j])@ == report_of(all[j]),
        decreases n - i,
    {
        proof {
            let c = contributions(all);
            lemma_total_prefix_le(c, i + 1);
            assert(c.take(i + 1).drop_last() =~= c.take(i as int));
        }
        let report = tally.record(entries[i].clone());
        reports.push(report);
        i = i + 1;
    }
    assert(contributions(all).take(n as int) =~= contributions(all));
    match tally.finish() {
        Some(line) => {
            reports.push(line);
        },
        None => {},
    }
    assert(report_views(reports@) =~= run_reports(all));
    reports
}

} // verus!
