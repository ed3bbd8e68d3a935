//! The classification engine, the status store, the reporter and the action
//! planner.
//!
//! For each tracked file the surrounding binary observes the filesystem at
//! the two resolved locations — a missing file is `None`, an existing one is
//! its text — and the classifier turns one observation into one `Status`.
//! The `Manager` holds the statuses of a whole run in configuration order,
//! renders them as a grouped report, and plans the writes that a requested
//! action implies; the binary carries the writes out in order.

use vstd::prelude::*;
use vstd::string::*;

use crate::cli::{Cli, UpdateMode};
use crate::content::{truncate_content, truncated};
use crate::resolve::{ResolvedDotfile, ResolvedDotfileView};

verus! {

/// A tracked file's identity: its display (short) path and its absolute
/// (full) path. Immutable once constructed.
#[derive(Debug, PartialEq, Eq)]
pub struct File {
    pub short_path: String,
    pub full_path: String,
}

/// The mathematical form of a `File`.
pub ghost struct FileView {
    pub short_path: Seq<char>,
    pub full_path: Seq<char>,
}

impl View for File {
    type V = FileView;

    open spec fn view(&self) -> FileView {
        FileView { short_path: self.short_path@, full_path: self.full_path@ }
    }
}

impl File {
    /// A file from its display and absolute path.
    pub fn new(short_path: String, full_path: String) -> (r: Self)
        ensures
            r@ == (FileView { short_path: short_path@, full_path: full_path@ }),
    {
        File { short_path, full_path }
    }
}

/// A `File` together with the text read at classification time, already
/// passed through the truncation rule. A snapshot: later filesystem changes
/// are not reflected.
#[derive(Debug, PartialEq, Eq)]
pub struct FileWithContent {
    pub short_path: String,
    pub full_path: String,
    pub content: String,
}

/// The mathematical form of a `FileWithContent`.
pub ghost struct FileWithContentView {
    pub short_path: Seq<char>,
    pub full_path: Seq<char>,
    pub content: Seq<char>,
}

impl View for FileWithContent {
    type V = FileWithContentView;

    open spec fn view(&self) -> FileWithContentView {
        FileWithContentView {
            short_path: self.short_path@,
            full_path: self.full_path@,
            content: self.content@,
        }
    }
}

impl FileWithContent {
    /// A file from its display path, absolute path and content snapshot.
    pub fn new(short_path: String, full_path: String, content: String) -> (r: Self)
        ensures
            r@ == (FileWithContentView {
                short_path: short_path@,
                full_path: full_path@,
                content: content@,
            }),
    {
        FileWithContent { short_path, full_path, content }
    }
}

/// The classification outcome for one tracked file.
///
/// The payloads carry what the later steps need: an `Upload`'s file is the
/// remote target with the local content, a `Download`'s the local target
/// with the remote content, and an `Update` carries both sides so either
/// direction can be applied without re-reading.
#[derive(Debug, PartialEq, Eq)]
pub enum Status {
    /// Both sides exist and their truncated contents are equal.
    UpToDate(File),
    /// Both sides exist and their truncated contents differ.
    Update(FileWithContent, FileWithContent),
    /// Only the local side exists; the payload is the remote target.
    Upload(FileWithContent),
    /// Only the remote side exists; the payload is the local target.
    Download(FileWithContent),
    /// Neither side exists.
    Absent(File),
}

/// The mathematical form of a `Status`.
pub ghost enum StatusView {
    UpToDate(FileView),
    Update(FileWithContentView, FileWithContentView),
    Upload(FileWithContentView),
    Download(FileWithContentView),
    Absent(FileView),
}

impl View for Status {
    type V = StatusView;

    open spec fn view(&self) -> StatusView {
        match self {
            Status::UpToDate(f) => StatusView::UpToDate(f@),
            Status::Update(l, r) => StatusView::Update(l@, r@),
            Status::Upload(f) => StatusView::Upload(f@),
            Status::Download(f) => StatusView::Download(f@),
            Status::Absent(f) => StatusView::Absent(f@),
        }
    }
}

impl DeepView for Status {
    type V = StatusView;

    open spec fn deep_view(&self) -> StatusView {
        self@
    }
}

/// What the surrounding binary observed for one tracked file: the resolved
/// locations and, for each side, the raw text of the file there, or `None`
/// when the path does not exist. A failed read is fatal and never reaches
/// the classifier.
pub struct Observation {
    pub file: ResolvedDotfile,
    pub local: Option<String>,
    pub remote: Option<String>,
}

/// The mathematical form of an `Observation`.
pub ghost struct ObservationView {
    pub file: ResolvedDotfileView,
    pub local: Option<Seq<char>>,
    pub remote: Option<Seq<char>>,
}

impl View for Observation {
    type V = ObservationView;

    open spec fn view(&self) -> ObservationView {
        ObservationView {
            file: self.file@,
            local: self.local.deep_view(),
            remote: self.remote.deep_view(),
        }
    }
}

impl DeepView for Observation {
    type V = ObservationView;

    open spec fn deep_view(&self) -> ObservationView {
        self@
    }
}

/// The status of one observed tracked file.
///
/// Existence of the two sides picks the variant; where both exist, equality
/// of the truncated contents decides between up-to-date and out-of-date,
/// so machine-local sections below the marker never cause a mismatch. The
/// contents carried in the payloads are the truncated ones: what is synced
/// is always the truncated text.
pub open spec fn classified(o: ObservationView) -> StatusView {
    match (o.local, o.remote) {
        (None, None) => StatusView::Absent(
            FileView { short_path: o.file.local_short, full_path: o.file.local_full },
        ),
        (Some(l), None) => StatusView::Upload(
            FileWithContentView {
                short_path: o.file.remote_short,
                full_path: o.file.remote_full,
                content: truncated(l),
            },
        ),
        (None, Some(r)) => StatusView::Download(
            FileWithContentView {
                short_path: o.file.local_short,
                full_path: o.file.local_full,
                content: truncated(r),
            },
        ),
        (Some(l), Some(r)) => if truncated(l) == truncated(r) {
            StatusView::UpToDate(
                FileView { short_path: o.file.local_short, full_path: o.file.local_full },
            )
        } else {
            StatusView::Update(
                FileWithContentView {
                    short_path: o.file.local_short,
                    full_path: o.file.local_full,
                    content: truncated(l),
                },
                FileWithContentView {
                    short_path: o.file.remote_short,
                    full_path: o.file.remote_full,
                    content: truncated(r),
                },
            )
        },
    }
}

/// Classifies one observed tracked file, following `classified`.
pub fn classify(o: &Observation) -> (s: Status)
    ensures
        s@ == classified(o@),
{
    match (&o.local, &o.remote) {
        (None, None) => Status::Absent(
            File::new(o.file.local_short.clone(), o.file.local_full.clone()),
        ),
        (Some(l), None) => {
            let content = truncate_content(l.as_str());
            Status::Upload(
                FileWithContent::new(
                    o.file.remote_short.clone(),
                    o.file.remote_full.clone(),
                    content,
                ),
            )
        },
        (None, Some(r)) => {
            let content = truncate_content(r.as_str());
            Status::Download(
                FileWithContent::new(
                    o.file.local_short.clone(),
                    o.file.local_full.clone(),
                    content,
                ),
            )
        },
        (Some(l), Some(r)) => {
            let lc = truncate_content(l.as_str());
            let rc = truncate_content(r.as_str());
            if lc == rc {
                Status::UpToDate(File::new(o.file.local_short.clone(), o.file.local_full.clone()))
            } else {
                Status::Update(
                    FileWithContent::new(
                        o.file.local_short.clone(),
                        o.file.local_full.clone(),
                        lc,
                    ),
                    FileWithContent::new(
                        o.file.remote_short.clone(),
                        o.file.remote_full.clone(),
                        rc,
                    ),
                )
            }
        },
    }
}

/// A tracked file that exists on neither side is classified `Absent`.
pub proof fn lemma_both_missing_is_absent(o: ObservationView)
    requires
        o.local is None,
        o.remote is None,
    ensures
        classified(o) == StatusView::Absent(
            FileView { short_path: o.file.local_short, full_path: o.file.local_full },
        ),
{
}

/// A tracked file whose truncated contents are byte-equal is classified
/// `UpToDate`, even where the sections below the marker differ.
pub proof fn lemma_equal_truncated_is_up_to_date(o: ObservationView)
    requires
        o.local matches Some(l) && o.remote matches Some(r) && truncated(l) == truncated(r),
    ensures
        classified(o) == StatusView::UpToDate(
            FileView { short_path: o.file.local_short, full_path: o.file.local_full },
        ),
{
}

/// The statuses of a sequence of observations, in order.
pub open spec fn classified_all(obs: Seq<ObservationView>) -> Seq<StatusView> {
    obs.map_values(|o: ObservationView| classified(o))
}

/// The ordered statuses of all tracked files of one run: an immutable
/// snapshot, computed once and consumed by the reporter or the planner.
#[derive(Debug)]
pub struct Manager {
    statuses: Vec<Status>,
}

impl View for Manager {
    type V = Seq<StatusView>;

    closed spec fn view(&self) -> Seq<StatusView> {
        self.statuses.deep_view()
    }
}

impl Manager {
    /// Classifies every observed tracked file, in order.
    pub fn new(observations: &Vec<Observation>) -> (r: Self)
        ensures
            r@ == classified_all(observations.deep_view()),
    {
        let ghost obs = observations.deep_view();
        let mut statuses: Vec<Status> = Vec::new();
        let mut i: usize = 0;
        let n: usize = observations.len();
        proof {
            assert(statuses.deep_view() =~= classified_all(obs.take(0)));
        }
        while i < n
            invariant
                i <= n,
                n == obs.len(),
                obs == observations.deep_view(),
                statuses.deep_view() == classified_all(obs.take(i as int)),
            decreases n - i,
        {
            let ghost prior = statuses.deep_view();
            let s = classify(&observations[i]);
            statuses.push(s);
            proof {
                assert(statuses.deep_view() =~= prior.push(classified(obs[i as int])));
                assert(classified_all(obs.take(i + 1)) =~= classified_all(
                    obs.take(i as int),
                ).push(classified(obs[i as int])));
            }
            i = i + 1;
        }
        proof {
            assert(obs.take(n as int) =~= obs);
        }
        Manager { statuses }
    }

    /// A store from pre-classified statuses, in the given order. For
    /// collaborators that supply synthetic tracked entries beside the
    /// observed ones.
    pub fn from_statuses(statuses: Vec<Status>) -> (r: Self)
        ensures
            r@ == statuses.deep_view(),
    {
        Manager { statuses }
    }

    /// The statuses, in configuration order.
    pub fn statuses(&self) -> (r: &Vec<Status>)
        ensures
            r.deep_view() == self@,
    {
        &self.statuses
    }
}

/// The display paths of the up-to-date statuses, in store order.
pub open spec fn up_to_date_group(ss: Seq<StatusView>) -> Seq<Seq<char>>
    decreases ss.len(),
{
    if ss.len() == 0 {
        Seq::empty()
    } else {
        let rest = up_to_date_group(ss.drop_last());
        match ss.last() {
            StatusView::UpToDate(f) => rest.push(f.short_path),
            _ => rest,
        }
    }
}

/// The display-path pairs (local, remote) of the out-of-date statuses, in
/// store order.
pub open spec fn update_group(ss: Seq<StatusView>) -> Seq<(Seq<char>, Seq<char>)>
    decreases ss.len(),
{
    if ss.len() == 0 {
        Seq::empty()
    } else {
        let rest = update_group(ss.drop_last());
        match ss.last() {
            StatusView::Update(l, r) => rest.push((l.short_path, r.short_path)),
            _ => rest,
        }
    }
}

/// The display paths of the statuses waiting for an upload, in store order.
pub open spec fn upload_group(ss: Seq<StatusView>) -> Seq<Seq<char>>
    decreases ss.len(),
{
    if ss.len() == 0 {
        Seq::empty()
    } else {
        let rest = upload_group(ss.drop_last());
        match ss.last() {
            StatusView::Upload(f) => rest.push(f.short_path),
            _ => rest,
        }
    }
}

/// The display paths of the statuses waiting for a download, in store order.
pub open spec fn download_group(ss: Seq<StatusView>) -> Seq<Seq<char>>
    decreases ss.len(),
{
    if ss.len() == 0 {
        Seq::empty()
    } else {
        let rest = download_group(ss.drop_last());
        match ss.last() {
            StatusView::Download(f) => rest.push(f.short_path),
            _ => rest,
        }
    }
}

/// The display paths of the statuses absent on both sides, in store order.
pub open spec fn absent_group(ss: Seq<StatusView>) -> Seq<Seq<char>>
    decreases ss.len(),
{
    if ss.len() == 0 {
        Seq::empty()
    } else {
        let rest = absent_group(ss.drop_last());
        match ss.last() {
            StatusView::Absent(f) => rest.push(f.short_path),
            _ => rest,
        }
    }
}

/// The statuses grouped by variant, each group holding the display form of
/// the relevant paths in store order. Each status feeds exactly one group.
#[derive(Debug, PartialEq, Eq)]
pub struct Report {
    pub up_to_date: Vec<String>,
    pub to_update: Vec<(String, String)>,
    pub to_upload: Vec<String>,
    pub to_download: Vec<String>,
    pub absent: Vec<String>,
}

/// Every status lands in exactly one report group: the five group sizes add
/// up to the size of the store.
pub proof fn lemma_groups_partition(ss: Seq<StatusView>)
    ensures
        up_to_date_group(ss).len() + update_group(ss).len() + upload_group(ss).len()
            + download_group(ss).len() + absent_group(ss).len() == ss.len(),
    decreases ss.len(),
{
    if ss.len() > 0 {
        lemma_groups_partition(ss.drop_last());
    }
}

/// A tracked file absent on both sides appears in the "does not exist"
/// group of the report.
pub proof fn lemma_absent_reported(ss: Seq<StatusView>, i: int)
    requires
        0 <= i < ss.len(),
        ss[i] is Absent,
    ensures
        absent_group(ss).contains(ss[i]->Absent_0.short_path),
    decreases ss.len(),
{
    if i == ss.len() - 1 {
        let g = absent_group(ss);
        assert(g.last() == ss[i]->Absent_0.short_path);
    } else {
        lemma_absent_reported(ss.drop_last(), i);
        let rest = absent_group(ss.drop_last());
        let j = choose|j: int| 0 <= j < rest.len() && rest[j] == ss[i]->Absent_0.short_path;
        assert(absent_group(ss)[j] == rest[j]);
    }
}

impl Manager {
    /// Groups the statuses by variant, keeping store order inside each
    /// group.
    pub fn groups(&self) -> (r: Report)
        ensures
            r.up_to_date.deep_view() == up_to_date_group(self@),
            r.to_update.deep_view() == update_group(self@),
            r.to_upload.deep_view() == upload_group(self@),
            r.to_download.deep_view() == download_group(self@),
            r.absent.deep_view() == absent_group(self@),
    {
        let ghost ss = self@;
        let mut up_to_date: Vec<String> = Vec::new();
        let mut to_update: Vec<(String, String)> = Vec::new();
        let mut to_upload: Vec<String> = Vec::new();
        let mut to_download: Vec<String> = Vec::new();
        let mut absent: Vec<String> = Vec::new();
        let mut i: usize = 0;
        let n: usize = self.statuses.len();
        proof {
            assert(ss.take(0) =~= Seq::<StatusView>::empty());
            assert(up_to_date.deep_view() =~= up_to_date_group(ss.take(0)));
            assert(to_update.deep_view() =~= update_group(ss.take(0)));
            assert(to_upload.deep_view() =~= upload_group(ss.take(0)));
            assert(to_download.deep_view() =~= download_group(ss.take(0)));
            assert(absent.deep_view() =~= absent_group(ss.take(0)));
        }
        while i < n
            invariant
                i <= n,
                n == ss.len(),
                ss == self@,
                up_to_date.deep_view() == up_to_date_group(ss.take(i as int)),
                to_update.deep_view() == update_group(ss.take(i as int)),
                to_upload.deep_view() == upload_group(ss.take(i as int)),
                to_download.deep_view() == download_group(ss.take(i as int)),
                absent.deep_view() == absent_group(ss.take(i as int)),
            decreases n - i,
        {
            proof {
                assert(ss.take(i + 1).drop_last() =~= ss.take(i as int));
                assert(ss.take(i + 1).last() == ss[i as int]);
            }
            let ghost g1 = up_to_date.deep_view();
            let ghost g2 = to_update.deep_view();
            let ghost g3 = to_upload.deep_view();
            let ghost g4 = to_download.deep_view();
            let ghost g5 = absent.deep_view();
            match &self.statuses[i] {
                Status::UpToDate(f) => {
                    up_to_date.push(f.short_path.clone());
                    proof {
                        assert(up_to_date.deep_view() =~= g1.push(f.short_path@));
                    }
                },
                Status::Update(l, r) => {
                    to_update.push((l.short_path.clone(), r.short_path.clone()));
                    proof {
                        assert(to_update.deep_view() =~= g2.push((l.short_path@, r.short_path@)));
                    }
                },
                Status::Upload(f) => {
                    to_upload.push(f.short_path.clone());
                    proof {
                        assert(to_upload.deep_view() =~= g3.push(f.short_path@));
                    }
                },
                Status::Download(f) => {
                    to_download.push(f.short_path.clone());
                    proof {
                        assert(to_download.deep_view() =~= g4.push(f.short_path@));
                    }
                },
                Status::Absent(f) => {
                    absent.push(f.short_path.clone());
                    proof {
                        assert(absent.deep_view() =~= g5.push(f.short_path@));
                    }
                },
            }
            i = i + 1;
        }
        proof {
            assert(ss.take(n as int) =~= ss);
        }
        Report { up_to_date, to_update, to_upload, to_download, absent }
    }
}

/// One report entry for a single path.
pub open spec fn path_line(p: Seq<char>) -> Seq<char> {
    "* "@ + p
}

/// One report entry for an out-of-date pair: local path, then remote path.
pub open spec fn pair_line(pr: (Seq<char>, Seq<char>)) -> Seq<char> {
    "* "@ + pr.0 + " - "@ + pr.1
}

/// One rendered report group: its heading, its entries, and a blank line —
/// or nothing at all when the group is empty.
pub open spec fn group_block(heading: Seq<char>, entries: Seq<Seq<char>>) -> Seq<Seq<char>> {
    if entries.len() == 0 {
        Seq::empty()
    } else {
        seq![heading] + entries + seq![Seq::<char>::empty()]
    }
}

/// The whole rendered report: the five groups under their fixed headings in
/// a fixed order, empty groups omitted.
pub open spec fn report_lines(ss: Seq<StatusView>) -> Seq<Seq<char>> {
    group_block("Up to date:"@, up_to_date_group(ss).map_values(|p: Seq<char>| path_line(p)))
        + group_block(
        "To update:"@,
        update_group(ss).map_values(|pr: (Seq<char>, Seq<char>)| pair_line(pr)),
    ) + group_block("To upload:"@, upload_group(ss).map_values(|p: Seq<char>| path_line(p)))
        + group_block(
        "To download:"@,
        download_group(ss).map_values(|p: Seq<char>| path_line(p)),
    ) + group_block("Does not exist:"@, absent_group(ss).map_values(|p: Seq<char>| path_line(p)))
}

/// Renders one single-path group under its heading onto `lines`.
fn push_path_block(lines: &mut Vec<String>, heading: &str, g: &Vec<String>)
    ensures
        final(lines).deep_view() == old(lines).deep_view() + group_block(
            heading@,
            g.deep_view().map_values(|p: Seq<char>| path_line(p)),
        ),
{
    let ghost base = lines.deep_view();
    let ghost gv = g.deep_view();
    let ghost entries = gv.map_values(|p: Seq<char>| path_line(p));
    if g.len() == 0 {
        proof {
            assert(base + group_block(heading@, entries) =~= base);
        }
        return ;
    }
    lines.push(heading.to_owned());
    let mut i: usize = 0;
    let n: usize = g.len();
    proof {
        assert(entries.take(0) =~= Seq::<Seq<char>>::empty());
        assert(lines.deep_view() =~= base + seq![heading@] + entries.take(0));
    }
    while i < n
        invariant
            i <= n,
            n == gv.len(),
            gv == g.deep_view(),
            entries == gv.map_values(|p: Seq<char>| path_line(p)),
            lines.deep_view() == base + seq![heading@] + entries.take(i as int),
        decreases n - i,
    {
        let ghost sofar = lines.deep_view();
        let mut line = "* ".to_owned();
        line.append(g[i].as_str());
        lines.push(line);
        proof {
            assert(lines.deep_view() =~= sofar.push(path_line(gv[i as int])));
            assert(base + seq![heading@] + entries.take(i + 1) =~= sofar.push(
                path_line(gv[i as int]),
            ));
        }
        i = i + 1;
    }
    let ghost sofar = lines.deep_view();
    lines.push(String::new());
    proof {
        assert(entries.take(n as int) =~= entries);
        assert(lines.deep_view() =~= sofar.push(Seq::<char>::empty()));
        assert(base + group_block(heading@, entries) =~= sofar.push(Seq::<char>::empty()));
    }
}

/// Renders the out-of-date group, a pair per entry, under its heading onto
/// `lines`.
fn push_pair_block(lines: &mut Vec<String>, heading: &str, g: &Vec<(String, String)>)
    ensures
        final(lines).deep_view() == old(lines).deep_view() + group_block(
            heading@,
            g.deep_view().map_values(|pr: (Seq<char>, Seq<char>)| pair_line(pr)),
        ),
{
    let ghost base = lines.deep_view();
    let ghost gv = g.deep_view();
    let ghost entries = gv.map_values(|pr: (Seq<char>, Seq<char>)| pair_line(pr));
    if g.len() == 0 {
        proof {
            assert(base + group_block(heading@, entries) =~= base);
        }
        return ;
    }
    lines.push(heading.to_owned());
    let mut i: usize = 0;
    let n: usize = g.len();
    proof {
        assert(entries.take(0) =~= Seq::<Seq<char>>::empty());
        assert(lines.deep_view() =~= base + seq![heading@] + entries.take(0));
    }
    while i < n
        invariant
            i <= n,
            n == gv.len(),
            gv == g.deep_view(),
            entries == gv.map_values(|pr: (Seq<char>, Seq<char>)| pair_line(pr)),
            lines.deep_view() == base + seq![heading@] + entries.take(i as int),
        decreases n - i,
    {
        let ghost sofar = lines.deep_view();
        let mut line = "* ".to_owned();
        line.append(g[i].0.as_str());
        line.append(" - ");
        line.append(g[i].1.as_str());
        lines.push(line);
        proof {
            assert(lines.deep_view() =~= sofar.push(pair_line(gv[i as int])));
            assert(base + seq![heading@] + entries.take(i + 1) =~= sofar.push(
                pair_line(gv[i as int]),
            ));
        }
        i = i + 1;
    }
    let ghost sofar = lines.deep_view();
    lines.push(String::new());
    proof {
        assert(entries.take(n as int) =~= entries);
        assert(lines.deep_view() =~= sofar.push(Seq::<char>::empty()));
        assert(base + group_block(heading@, entries) =~= sofar.push(Seq::<char>::empty()));
    }
}

impl Manager {
    /// Renders the status store as the grouped report, line by line,
    /// following `report_lines`. Reporting never touches the filesystem.
    pub fn check(&self) -> (lines: Vec<String>)
        ensures
            lines.deep_view() == report_lines(self@),
    {
        let report = self.groups();
        let mut lines: Vec<String> = Vec::new();
        proof {
            assert(lines.deep_view() =~= Seq::<Seq<char>>::empty());
        }
        push_path_block(&mut lines, "Up to date:", &report.up_to_date);
        push_pair_block(&mut lines, "To update:", &report.to_update);
        push_path_block(&mut lines, "To upload:", &report.to_upload);
        push_path_block(&mut lines, "To download:", &report.to_download);
        push_path_block(&mut lines, "Does not exist:", &report.absent);
        proof {
            assert(lines.deep_view() =~= report_lines(self@));
        }
        lines
    }
}

/// The verb a performed write is confirmed with.
#[derive(Debug, Clone, Copy, PartialEq, Eq, Structural)]
pub enum ActionKind {
    Updated,
    Uploaded,
    Downloaded,
}

/// The confirmation verb as text.
pub open spec fn action_text(k: ActionKind) -> Seq<char> {
    match k {
        ActionKind::Updated => "Updated"@,
        ActionKind::Uploaded => "Uploaded"@,
        ActionKind::Downloaded => "Downloaded"@,
    }
}

/// One filesystem write that a requested action implies: the new content of
/// the target path, plus what the per-file confirmation shows.
#[derive(Debug, PartialEq, Eq)]
pub struct WriteOp {
    /// The absolute path overwritten.
    pub target_path: String,
    /// The full new content of the target.
    pub content: String,
    /// The display path named in the confirmation.
    pub short_path: String,
    /// The verb of the confirmation.
    pub action: ActionKind,
}

/// The mathematical form of a `WriteOp`.
pub ghost struct WriteOpView {
    pub target_path: Seq<char>,
    pub content: Seq<char>,
    pub short_path: Seq<char>,
    pub action: ActionKind,
}

impl View for WriteOp {
    type V = WriteOpView;

    open spec fn view(&self) -> WriteOpView {
        WriteOpView {
            target_path: self.target_path@,
            content: self.content@,
            short_path: self.short_path@,
            action: self.action,
        }
    }
}

impl DeepView for WriteOp {
    type V = WriteOpView;

    open spec fn deep_view(&self) -> WriteOpView {
        self@
    }
}

/// The per-file confirmation a performed write emits.
pub open spec fn op_message(v: WriteOpView) -> Seq<char> {
    "`"@ + v.short_path + "`: "@ + action_text(v.action)
}

impl WriteOp {
    /// The confirmation line for this write, following `op_message`.
    pub fn message(&self) -> (r: String)
        ensures
            r@ == op_message(self@),
    {
        let mut r = "`".to_owned();
        r.append(self.short_path.as_str());
        r.append("`: ");
        match self.action {
            ActionKind::Updated => r.append("Updated"),
            ActionKind::Uploaded => r.append("Uploaded"),
            ActionKind::Downloaded => r.append("Downloaded"),
        }
        r
    }
}

/// The writes one status contributes under the requested selection: one
/// write when the status variant matches the requested action, none
/// otherwise. An `Update` is written in the direction the update mode
/// names; the content written is always the source side's truncated
/// snapshot, as the full new content of the target.
pub open spec fn planned_op(s: StatusView, cli: Cli) -> Seq<WriteOpView> {
    match s {
        StatusView::Update(l, r) => match cli.update {
            Some(UpdateMode::Local) => seq![
                WriteOpView {
                    target_path: l.full_path,
                    content: r.content,
                    short_path: l.short_path,
                    action: ActionKind::Updated,
                },
            ],
            Some(UpdateMode::Remote) => seq![
                WriteOpView {
                    target_path: r.full_path,
                    content: l.content,
                    short_path: r.short_path,
                    action: ActionKind::Updated,
                },
            ],
            None => Seq::empty(),
        },
        StatusView::Upload(f) => if cli.upload {
            seq![
                WriteOpView {
                    target_path: f.full_path,
                    content: f.content,
                    short_path: f.short_path,
                    action: ActionKind::Uploaded,
                },
            ]
        } else {
            Seq::empty()
        },
        StatusView::Download(f) => if cli.download {
            seq![
                WriteOpView {
                    target_path: f.full_path,
                    content: f.content,
                    short_path: f.short_path,
                    action: ActionKind::Downloaded,
                },
            ]
        } else {
            Seq::empty()
        },
        _ => Seq::empty(),
    }
}

/// The writes a whole store implies under the requested selection, in store
/// order.
pub open spec fn planned(ss: Seq<StatusView>, cli: Cli) -> Seq<WriteOpView>
    decreases ss.len(),
{
    if ss.len() == 0 {
        Seq::empty()
    } else {
        planned(ss.drop_last(), cli) + planned_op(ss.last(), cli)
    }
}

impl Manager {
    /// Plans the writes that the requested selection implies: one write per
    /// status whose variant matches the requested action, in store order,
    /// following `planned`. Non-matching statuses are skipped silently. The
    /// surrounding binary performs the writes in this order, stopping at
    /// the first failure.
    pub fn run(&self, cli: &Cli) -> (ops: Vec<WriteOp>)
        ensures
            ops.deep_view() == planned(self@, *cli),
    {
        let ghost ss = self@;
        let mut ops: Vec<WriteOp> = Vec::new();
        let mut i: usize = 0;
        let n: usize = self.statuses.len();
        proof {
            assert(ss.take(0) =~= Seq::<StatusView>::empty());
            assert(ops.deep_view() =~= planned(ss.take(0), *cli));
        }
        while i < n
            invariant
                i <= n,
                n == ss.len(),
                ss == self@,
                ops.deep_view() == planned(ss.take(i as int), *cli),
            decreases n - i,
        {
            proof {
                assert(ss.take(i + 1).drop_last() =~= ss.take(i as int));
                assert(ss.take(i + 1).last() == ss[i as int]);
            }
            let ghost prior = ops.deep_view();
            match &self.statuses[i] {
                Status::Update(l, r) => match cli.update {
                    Some(UpdateMode::Local) => {
                        ops.push(
                            WriteOp {
                                target_path: l.full_path.clone(),
                                content: r.content.clone(),
                                short_path: l.short_path.clone(),
                                action: ActionKind::Updated,
                            },
                        );
                        proof {
                            assert(ops.deep_view() =~= prior + planned_op(ss[i as int], *cli));
                        }
                    },
                    Some(UpdateMode::Remote) => {
                        ops.push(
                            WriteOp {
                                target_path: r.full_path.clone(),
                                content: l.content.clone(),
                                short_path: r.short_path.clone(),
                                action: ActionKind::Updated,
                            },
                        );
                        proof {
                            assert(ops.deep_view() =~= prior + planned_op(ss[i as int], *cli));
                        }
                    },
                    None => {
                        proof {
                            assert(ops.deep_view() =~= prior + planned_op(ss[i as int], *cli));
                        }
                    },
                },
                Status::Upload(f) => {
                    if cli.upload {
                        ops.push(
                            WriteOp {
                                target_path: f.full_path.clone(),
                                content: f.content.clone(),
                                short_path: f.short_path.clone(),
                                action: ActionKind::Uploaded,
                            },
                        );
                    }
                    proof {
                        assert(ops.deep_view() =~= prior + planned_op(ss[i as int], *cli));
                    }
                },
                Status::Download(f) => {
                    if cli.download {
                        ops.push(
                            WriteOp {
                                target_path: f.full_path.clone(),
                                content: f.content.clone(),
                                short_path: f.short_path.clone(),
                                action: ActionKind::Downloaded,
                            },
                        );
                    }
                    proof {
                        assert(ops.deep_view() =~= prior + planned_op(ss[i as int], *cli));
                    }
                },
                _ => {
                    proof {
                        assert(ops.deep_view() =~= prior + planned_op(ss[i as int], *cli));
                    }
                },
            }
            i = i + 1;
        }
        proof {
            assert(ss.take(n as int) =~= ss);
        }
        ops
    }
}

} // verus!
