//! Sessions of the server: their state, their files, and the list of them.
use crate::json::{json_of, object_of_one, parse, parsed, string, text_member, Json};
use crate::text::{
    chars_of, clone_opt_text, extension, file_extension, file_stem, group_views, opt_view, same,
    stem, trim, trimmed, views,
};
use vstd::prelude::*;

verus! {

/// Name of a session before a title has been generated for it.
pub const DEFAULT_SESSION_NAME: &'static str = "New session";

// ---------------------------------------------------------------------------
// State
// ---------------------------------------------------------------------------

/// The state of one session.
pub struct SessionState {
    pub message_ids: Vec<String>,
    pub cwd: String,
    pub name: String,
    pub ts: String,
    /// Id of the session, the stem of its file.
    pub file_id: String,
    /// Id of the session that started this one.
    pub parent: Option<String>,
    /// Whether an agent run is active.
    pub running: bool,
    /// Counts the title generations that were started. Only the latest one may
    /// set the title.
    pub title_gen_seq: u64,
}

#[verifier::ext_equal]
pub struct SessionView {
    pub message_ids: Seq<Seq<char>>,
    pub cwd: Seq<char>,
    pub name: Seq<char>,
    pub ts: Seq<char>,
    pub file_id: Seq<char>,
    pub parent: Option<Seq<char>>,
    pub running: bool,
    pub title_gen_seq: u64,
}

impl View for SessionState {
    type V = SessionView;

    open spec fn view(&self) -> SessionView {
        SessionView {
            message_ids: views(self.message_ids@),
            cwd: self.cwd@,
            name: self.name@,
            ts: self.ts@,
            file_id: self.file_id@,
            parent: opt_view(self.parent),
            running: self.running,
            title_gen_seq: self.title_gen_seq,
        }
    }
}

impl SessionState {
    pub fn is_running(&self) -> (r: bool)
        ensures
            r == self@.running,
    {
        self.running
    }

    pub fn status(&self) -> (r: &'static str)
        ensures
            r@ == if self@.running {
                "running"@
            } else {
                "idle"@
            },
    {
        if self.is_running() {
            "running"
        } else {
            "idle"
        }
    }
}

/// The first line of a session file.
pub struct SessionHeader {
    pub session: String,
    pub ts: String,
    pub cwd: Option<String>,
    pub parent: Option<String>,
}

#[verifier::ext_equal]
pub struct HeaderView {
    pub session: Seq<char>,
    pub ts: Seq<char>,
    pub cwd: Option<Seq<char>>,
    pub parent: Option<Seq<char>>,
}

impl View for SessionHeader {
    type V = HeaderView;

    open spec fn view(&self) -> HeaderView {
        HeaderView {
            session: self.session@,
            ts: self.ts@,
            cwd: opt_view(self.cwd),
            parent: opt_view(self.parent),
        }
    }
}

// ---------------------------------------------------------------------------
// Errors
// ---------------------------------------------------------------------------

/// An error that a request is answered with.
pub enum AppError {
    NotFound(String),
    BadRequest(String),
    Conflict(String),
    Internal(String),
}

pub enum AppErrorView {
    NotFound(Seq<char>),
    BadRequest(Seq<char>),
    Conflict(Seq<char>),
    Internal(Seq<char>),
}

impl View for AppError {
    type V = AppErrorView;

    open spec fn view(&self) -> AppErrorView {
        match self {
            AppError::NotFound(m) => AppErrorView::NotFound(m@),
            AppError::BadRequest(m) => AppErrorView::BadRequest(m@),
            AppError::Conflict(m) => AppErrorView::Conflict(m@),
            AppError::Internal(m) => AppErrorView::Internal(m@),
        }
    }
}

/// An HTTP answer: a status code and a JSON body.
pub struct Answer {
    pub status: u16,
    pub body: serde_json::Value,
}

pub open spec fn error_status(error: AppErrorView) -> u16 {
    match error {
        AppErrorView::NotFound(_) => 404,
        AppErrorView::BadRequest(_) => 400,
        AppErrorView::Conflict(_) => 409,
        AppErrorView::Internal(_) => 500,
    }
}

pub open spec fn error_message(error: AppErrorView) -> Seq<char> {
    match error {
        AppErrorView::NotFound(m) => m,
        AppErrorView::BadRequest(m) => m,
        AppErrorView::Conflict(m) => m,
        AppErrorView::Internal(m) => m,
    }
}

/// The answer that reports an error.
pub fn into_response(error: AppError) -> (r: Answer)
    ensures
        r.status == error_status(error@),
        json_of(r.body) == Json::Object(map!["error"@ => Json::Text(error_message(error@))]),
{
    let (status, message): (u16, String) = match error {
        AppError::NotFound(m) => (404, m),
        AppError::BadRequest(m) => (400, m),
        AppError::Conflict(m) => (409, m),
        AppError::Internal(m) => (500, m),
    };
    Answer { status, body: object_of_one("error", string(message)) }
}

/// Two errors that are answered alike are alike.
pub proof fn law_answers_tell_errors_apart(a: AppErrorView, b: AppErrorView)
    requires
        error_status(a) == error_status(b),
        error_message(a) == error_message(b),
    ensures
        a == b,
{
}

// ---------------------------------------------------------------------------
// Session files
// ---------------------------------------------------------------------------

/// The ids of the messages among the lines of a session file, in order: the
/// `msg` member of every line that is JSON and has one.
pub open spec fn line_id(line: Seq<char>) -> Option<Seq<char>> {
    let text = trimmed(line);
    if text.len() == 0 {
        None
    } else {
        match parsed(text) {
            Some(json) => json.text_member("msg"@),
            None => None,
        }
    }
}

pub open spec fn line_ids(lines: Seq<Seq<char>>) -> Seq<Seq<char>>
    decreases lines.len(),
{
    if lines.len() == 0 {
        Seq::empty()
    } else {
        match line_id(lines.last()) {
            Some(id) => line_ids(lines.drop_last()).push(id),
            None => line_ids(lines.drop_last()),
        }
    }
}

/// The message id that a parsed line gives.
pub fn id_of_line(json: &serde_json::Value) -> (r: Option<String>)
    ensures
        opt_view(r) == json_of(*json).text_member("msg"@),
{
    match text_member(json, "msg") {
        Some(id) => Some(id.to_string()),
        None => None,
    }
}

#[verifier::loop_isolation(false)]
pub fn read_session_message_ids(lines: &Vec<String>) -> (r: Vec<String>)
    ensures
        views(r@) == line_ids(views(lines@)),
{
    broadcast use group_views;

    let ghost all = views(lines@);
    let mut ids: Vec<String> = Vec::new();
    let mut i: usize = 0;
    while i < lines.len()
        invariant
            i <= lines.len(),
            views(ids@) == line_ids(all.take(i as int)),
        decreases lines.len() - i,
    {
        assert(all.take(i + 1).drop_last() =~= all.take(i as int));
        assert(all.take(i + 1).last() == lines@[i as int]@);
        let text = trim(lines[i].as_str());
        if !text.as_str().is_empty() {
            if let Some(json) = parse(text.as_str()) {
                if let Some(id) = id_of_line(&json) {
                    ids.push(id);
                }
            }
        }
        i += 1;
    }
    assert(all.take(i as int) =~= all);
    ids
}

/// The number of lines that are not blank.
pub open spec fn written_lines(lines: Seq<Seq<char>>) -> nat
    decreases lines.len(),
{
    if lines.len() == 0 {
        0
    } else if trimmed(lines.last()).len() == 0 {
        written_lines(lines.drop_last())
    } else {
        written_lines(lines.drop_last()) + 1
    }
}

#[verifier::loop_isolation(false)]
pub fn count_lines(lines: &Vec<String>) -> (r: usize)
    ensures
        r == written_lines(views(lines@)),
{
    let ghost all = views(lines@);
    let mut n: usize = 0;
    let mut i: usize = 0;
    while i < lines.len()
        invariant
            n <= i <= lines.len(),
            n == written_lines(all.take(i as int)),
        decreases lines.len() - i,
    {
        assert(all.take(i + 1).drop_last() =~= all.take(i as int));
        assert(all.take(i + 1).last() == lines@[i as int]@);
        let text = trim(lines[i].as_str());
        if !text.as_str().is_empty() {
            n += 1;
        }
        i += 1;
    }
    assert(all.take(i as int) =~= all);
    n
}

// ---------------------------------------------------------------------------
// Listing
// ---------------------------------------------------------------------------

/// A file in the directory of sessions. `header` is absent where it could not be
/// read.
pub struct SessionFile {
    pub name: String,
    pub header: Option<SessionHeader>,
    pub lines: Vec<String>,
}

#[verifier::ext_equal]
pub struct FileView {
    pub name: Seq<char>,
    pub header: Option<HeaderView>,
    pub lines: Seq<Seq<char>>,
}

impl View for SessionFile {
    type V = FileView;

    open spec fn view(&self) -> FileView {
        FileView {
            name: self.name@,
            header: opt_view(self.header),
            lines: views(self.lines@),
        }
    }
}

/// What a list of sessions says of one.
pub struct SessionSummary {
    pub id: String,
    pub name: String,
    pub ts: String,
    pub cwd: String,
    pub parent: Option<String>,
    pub message_count: usize,
}

#[verifier::ext_equal]
pub struct SummaryView {
    pub id: Seq<char>,
    pub name: Seq<char>,
    pub ts: Seq<char>,
    pub cwd: Seq<char>,
    pub parent: Option<Seq<char>>,
    pub message_count: nat,
}

impl View for SessionSummary {
    type V = SummaryView;

    open spec fn view(&self) -> SummaryView {
        SummaryView {
            id: self.id@,
            name: self.name@,
            ts: self.ts@,
            cwd: self.cwd@,
            parent: opt_view(self.parent),
            message_count: self.message_count as nat,
        }
    }
}

/// Whether `a` stands before `b` in the order of their characters.
pub open spec fn before(a: Seq<char>, b: Seq<char>) -> bool
    decreases a.len(),
{
    if b.len() == 0 {
        false
    } else if a.len() == 0 {
        true
    } else if a[0] != b[0] {
        a[0] < b[0]
    } else {
        before(a.drop_first(), b.drop_first())
    }
}

#[verifier::loop_isolation(false)]
pub fn stands_before(a: &str, b: &str) -> (r: bool)
    ensures
        r == before(a@, b@),
{
    let x = chars_of(a);
    let y = chars_of(b);
    let mut i: usize = 0;
    assert(x@.skip(0) =~= x@);
    assert(y@.skip(0) =~= y@);
    while i < x.len() && i < y.len()
        invariant
            i <= x.len(),
            i <= y.len(),
            before(x@, y@) == before(x@.skip(i as int), y@.skip(i as int)),
        decreases x.len() - i,
    {
        if x[i] != y[i] {
            return x[i] < y[i];
        }
        assert(x@.skip(i as int).drop_first() =~= x@.skip(i + 1));
        assert(y@.skip(i as int).drop_first() =~= y@.skip(i + 1));
        i += 1;
    }
    i < y.len()
}

/// `file` put into a list that is sorted by name, last name first.
pub open spec fn inserted(list: Seq<FileView>, file: FileView) -> Seq<FileView>
    decreases list.len(),
{
    if list.len() == 0 {
        seq![file]
    } else if before(list[0].name, file.name) {
        seq![file] + list
    } else {
        seq![list[0]] + inserted(list.drop_first(), file)
    }
}

/// Whether a file holds a session.
pub open spec fn is_session_file(file: FileView) -> bool {
    extension(file.name) == Some("jsonl"@)
}

/// The session files, last name first.
pub open spec fn ordered(files: Seq<FileView>) -> Seq<FileView>
    decreases files.len(),
{
    if files.len() == 0 {
        Seq::empty()
    } else if is_session_file(files.last()) {
        inserted(ordered(files.drop_last()), files.last())
    } else {
        ordered(files.drop_last())
    }
}

/// What is said of a file whose header could be read.
pub open spec fn summary(file: FileView, header: HeaderView) -> SummaryView {
    let lines = written_lines(file.lines);
    SummaryView {
        id: stem(file.name),
        name: header.session,
        ts: header.ts,
        cwd: match header.cwd {
            Some(c) => c,
            None => Seq::empty(),
        },
        parent: header.parent,
        message_count: if lines > 0 {
            (lines - 1) as nat
        } else {
            0
        },
    }
}

pub open spec fn summaries(files: Seq<FileView>) -> Seq<SummaryView>
    decreases files.len(),
{
    if files.len() == 0 {
        Seq::empty()
    } else {
        match files.last().header {
            Some(h) => summaries(files.drop_last()).push(summary(files.last(), h)),
            None => summaries(files.drop_last()),
        }
    }
}

#[verifier::loop_isolation(false)]
fn insert_file(list: &mut Vec<SessionFile>, file: SessionFile)
    ensures
        views(final(list)@) == inserted(views(old(list)@), file@),
{
    let ghost all = views(list@);
    let mut i: usize = 0;
    assert(all.skip(0) =~= all);
    assert(all.take(0) + inserted(all, file@) =~= inserted(all, file@));
    while i < list.len() && !stands_before(list[i].name.as_str(), file.name.as_str())
        invariant
            i <= list.len(),
            inserted(all, file@) == all.take(i as int) + inserted(all.skip(i as int), file@),
        decreases list.len() - i,
    {
        let ghost rest = all.skip(i as int);
        assert(rest[0] == list@[i as int]@);
        assert(rest.drop_first() =~= all.skip(i + 1));
        assert(all.take(i as int) + (seq![rest[0]] + inserted(all.skip(i + 1), file@))
            =~= all.take(i + 1) + inserted(all.skip(i + 1), file@));
        i += 1;
    }
    proof {
        let rest = all.skip(i as int);
        if i < list.len() {
            assert(rest[0] == list@[i as int]@);
            assert(inserted(rest, file@) == seq![file@] + rest);
        } else {
            assert(rest =~= Seq::<FileView>::empty());
            assert(inserted(rest, file@) =~= seq![file@] + rest);
        }
    }
    list.insert(i, file);
    assert(views(list@) =~= all.take(i as int) + (seq![file@] + all.skip(i as int)));
}

fn summarize(file: &SessionFile, header: &SessionHeader) -> (r: SessionSummary)
    ensures
        r@ == summary(file@, header@),
{
    let lines = count_lines(&file.lines);
    SessionSummary {
        id: file_stem(file.name.as_str()),
        name: header.session.clone(),
        ts: header.ts.clone(),
        cwd: match &header.cwd {
            Some(c) => c.clone(),
            None => String::new(),
        },
        parent: clone_opt_text(&header.parent),
        message_count: if lines > 0 {
            lines - 1
        } else {
            0
        },
    }
}

/// List the sessions in a directory, last file name first. A file that is no
/// session file, or whose header could not be read, is left out.
#[verifier::loop_isolation(false)]
pub fn list_sessions(files: Vec<SessionFile>) -> (r: Vec<SessionSummary>)
    ensures
        views(r@) == summaries(ordered(views(files@))),
{
    broadcast use group_views;

    let ghost all = views(files@);
    let mut files = files;
    let mut rest: Vec<SessionFile> = Vec::new();
    // Take the files from the back, then insert them from the front on.
    while files.len() > 0
        invariant
            views(files@) + views(rest@).reverse() == all,
        decreases files.len(),
    {
        let ghost f = views(files@);
        let ghost b = views(rest@);
        let last = files.pop();
        if let Some(file) = last {
            assert(f.last() == file@);
            assert(views(files@) =~= f.drop_last());
            rest.push(file);
            assert(views(files@) + views(rest@).reverse() =~= f + b.reverse());
        }
    }
    assert(views(files@) + views(rest@).reverse() =~= views(rest@).reverse());
    let mut list: Vec<SessionFile> = Vec::new();
    let ghost mut done: int = 0;
    while rest.len() > 0
        invariant
            0 <= done <= all.len(),
            all.skip(done) == views(rest@).reverse(),
            views(list@) == ordered(all.take(done)),
        decreases rest.len(),
    {
        let ghost b = views(rest@);
        assert(all.skip(done).len() == b.len());
        let last = rest.pop();
        if let Some(file) = last {
            assert(b.last() == file@);
            assert(all[done] == all.skip(done)[0]);
            assert(b.reverse()[0] == file@);
            assert(views(rest@) =~= b.drop_last());
            assert(all.take(done + 1).drop_last() =~= all.take(done));
            assert(all.take(done + 1).last() == file@);
            assert(all.skip(done + 1) =~= all.skip(done).drop_first());
            assert(b.reverse().drop_first() =~= b.drop_last().reverse());
            let keep = match file_extension(file.name.as_str()) {
                Some(ext) => same(ext.as_str(), "jsonl"),
                None => false,
            };
            if keep {
                insert_file(&mut list, file);
            }
            proof {
                done = done + 1;
            }
        }
    }
    assert(all.take(done) =~= all);
    let ghost sorted = views(list@);
    let mut r: Vec<SessionSummary> = Vec::new();
    let mut i: usize = 0;
    while i < list.len()
        invariant
            i <= list.len(),
            views(r@) == summaries(sorted.take(i as int)),
        decreases list.len() - i,
    {
        assert(sorted.take(i + 1).drop_last() =~= sorted.take(i as int));
        assert(sorted.take(i + 1).last() == list@[i as int]@);
        if let Some(header) = &list[i].header {
            r.push(summarize(&list[i], header));
        }
        i += 1;
    }
    assert(sorted.take(i as int) =~= sorted);
    r
}

proof fn lemma_before_transitive(a: Seq<char>, b: Seq<char>, c: Seq<char>)
    requires
        before(a, b),
        before(b, c),
    ensures
        before(a, c),
    decreases a.len(),
{
    if a.len() > 0 && b.len() > 0 && c.len() > 0 && a[0] == b[0] && b[0] == c[0] {
        lemma_before_transitive(a.drop_first(), b.drop_first(), c.drop_first());
    }
}

/// Names are sorted, last name first.
pub open spec fn sorted_by_name(files: Seq<FileView>) -> bool {
    forall|i: int, j: int|
        #![trigger files[i], files[j]]
        0 <= i < j < files.len() ==> !before(files[i].name, files[j].name)
}

proof fn lemma_inserted(list: Seq<FileView>, file: FileView)
    requires
        sorted_by_name(list),
    ensures
        sorted_by_name(inserted(list, file)),
        inserted(list, file).to_multiset() == list.to_multiset().insert(file),
        forall|i: int|
            0 <= i < inserted(list, file).len() ==> #[trigger] inserted(list, file)[i] == file
                || list.contains(inserted(list, file)[i]),
    decreases list.len(),
{
    broadcast use vstd::seq_lib::group_to_multiset_ensures;

    let all = inserted(list, file);
    if list.len() == 0 {
        assert(seq![file] =~= Seq::<FileView>::empty().push(file));
        assert(list =~= Seq::<FileView>::empty());
    } else if before(list[0].name, file.name) {
        assert(all =~= list.insert(0, file));
        assert forall|i: int, j: int|
            #![trigger all[i], all[j]]
            0 <= i < j < all.len() implies !before(all[i].name, all[j].name) by {
            if i == 0 {
                if before(file.name, list[j - 1].name) {
                    lemma_before_transitive(list[0].name, file.name, list[j - 1].name);
                    if j > 1 {
                        assert(!before(list[0].name, list[j - 1].name));
                    }
                    lemma_before_irreflexive(list[0].name);
                }
            } else {
                assert(all[i] == list[i - 1]);
                assert(all[j] == list[j - 1]);
            }
        }
        assert forall|i: int| 0 <= i < all.len() implies #[trigger] all[i] == file
            || list.contains(all[i]) by {
            if i > 0 {
                assert(all[i] == list[i - 1]);
            }
        }
    } else {
        let rest = list.drop_first();
        assert(sorted_by_name(rest)) by {
            assert forall|i: int, j: int|
                #![trigger rest[i], rest[j]]
                0 <= i < j < rest.len() implies !before(rest[i].name, rest[j].name) by {
                assert(rest[i] == list[i + 1]);
                assert(rest[j] == list[j + 1]);
            }
        }
        lemma_inserted(rest, file);
        let tail = inserted(rest, file);
        assert forall|i: int, j: int|
            #![trigger all[i], all[j]]
            0 <= i < j < all.len() implies !before(all[i].name, all[j].name) by {
            assert(all[j] == tail[j - 1]);
            if i == 0 {
                if tail[j - 1] != file {
                    let k = choose|k: int| 0 <= k < rest.len() && rest[k] == tail[j - 1];
                    assert(rest[k] == list[k + 1]);
                }
            } else {
                assert(all[i] == tail[i - 1]);
            }
        }
        assert(list =~= rest.insert(0, list[0]));
        assert(all =~= tail.insert(0, list[0]));
        assert(all.to_multiset() =~= list.to_multiset().insert(file));
        assert forall|i: int| 0 <= i < all.len() implies #[trigger] all[i] == file
            || list.contains(all[i]) by {
            if i == 0 {
                assert(list.contains(list[0]));
            } else {
                assert(all[i] == tail[i - 1]);
                if tail[i - 1] != file {
                    let k = choose|k: int| 0 <= k < rest.len() && rest[k] == tail[i - 1];
                    assert(list[k + 1] == rest[k]);
                }
            }
        }
    }
}

proof fn lemma_before_irreflexive(a: Seq<char>)
    ensures
        !before(a, a),
    decreases a.len(),
{
    if a.len() > 0 {
        lemma_before_irreflexive(a.drop_first());
    }
}

/// The files that are listed are the session files of the directory, each as often
/// as it is there, last name first.
pub proof fn law_listing_sorted(files: Seq<FileView>)
    ensures
        sorted_by_name(ordered(files)),
        ordered(files).to_multiset() == files.filter(
            |f: FileView| is_session_file(f),
        ).to_multiset(),
    decreases files.len(),
{
    broadcast use vstd::seq_lib::group_to_multiset_ensures;

    let keep = |f: FileView| is_session_file(f);
    reveal(Seq::filter);
    if files.len() > 0 {
        law_listing_sorted(files.drop_last());
        if is_session_file(files.last()) {
            lemma_inserted(ordered(files.drop_last()), files.last());
            assert(files.filter(keep) == files.drop_last().filter(keep).push(files.last()));
        } else {
            assert(files.filter(keep) == files.drop_last().filter(keep));
        }
    }
}

/// How many lines of a file are not blank.
pub open spec fn written(lines: Seq<Seq<char>>) -> nat {
    lines.filter(|l: Seq<char>| trimmed(l).len() > 0).len()
}

proof fn lemma_written(lines: Seq<Seq<char>>)
    ensures
        written_lines(lines) == written(lines),
    decreases lines.len(),
{
    reveal(Seq::filter);
    if lines.len() > 0 {
        lemma_written(lines.drop_last());
    }
}

/// Whether an entry of the list says of a file what the file says of itself.
pub open spec fn tells_of(entry: SummaryView, file: FileView) -> bool {
    &&& file.name == entry.id + ".jsonl"@
    &&& file.header matches Some(h) && {
        &&& entry.name == h.session
        &&& entry.ts == h.ts
        &&& entry.parent == h.parent
        &&& h.cwd matches Some(c) ==> entry.cwd == c
        &&& h.cwd is None ==> entry.cwd.len() == 0
    }
    &&& written(file.lines) > 0 ==> entry.message_count == written(file.lines) - 1
    &&& written(file.lines) == 0 ==> entry.message_count == 0
}

proof fn lemma_session_file(name: Seq<char>)
    requires
        extension(name) == Some("jsonl"@),
    ensures
        name == stem(name) + ".jsonl"@,
{
    crate::text_laws::law_name_is_stem_and_extension(name);
    reveal_strlit(".");
    reveal_strlit("jsonl");
    reveal_strlit(".jsonl");
    assert("."@ + "jsonl"@ =~= ".jsonl"@);
    assert(stem(name) + "."@ + "jsonl"@ =~= stem(name) + ".jsonl"@);
}

proof fn lemma_ordered(files: Seq<FileView>, file: FileView)
    ensures
        ordered(files).contains(file) <==> files.contains(file) && is_session_file(file),
    decreases files.len(),
{
    if files.len() > 0 {
        let front = files.drop_last();
        let last = files.last();
        lemma_ordered(front, file);
        assert(files[files.len() - 1] == last);
        if files.contains(file) && file != last {
            let k = choose|k: int| 0 <= k < files.len() && files[k] == file;
            assert(front[k] == file);
        }
        if front.contains(file) {
            let k = choose|k: int| 0 <= k < front.len() && front[k] == file;
            assert(files[k] == file);
        }
        if is_session_file(last) {
            law_listing_sorted(front);
            lemma_inserted(ordered(front), last);
            let rest = ordered(front);
            let all = ordered(files);
            broadcast use vstd::seq_lib::group_to_multiset_ensures;

            assert(all.to_multiset() == rest.to_multiset().insert(last));
            assert(all.contains(file) <==> all.to_multiset().count(file) > 0);
            assert(rest.contains(file) <==> rest.to_multiset().count(file) > 0);
        }
    }
}

proof fn lemma_summaries(files: Seq<FileView>) -> (at: Seq<int>)
    requires
        forall|k: int| 0 <= k < files.len() ==> is_session_file(#[trigger] files[k]),
    ensures
        at.len() == summaries(files).len(),
        forall|i: int|
            0 <= i < at.len() ==> 0 <= #[trigger] at[i] < files.len() && tells_of(
                summaries(files)[i],
                files[at[i]],
            ),
        forall|i: int, j: int| 0 <= i < j < at.len() ==> #[trigger] at[i] < #[trigger] at[j],
        forall|k: int| 0 <= k < files.len() && (#[trigger] files[k]).header is Some ==> at.contains(k),
    decreases files.len(),
{
    if files.len() == 0 {
        Seq::empty()
    } else {
        let front = files.drop_last();
        let last = files.last();
        let n = files.len() - 1;
        assert forall|k: int| 0 <= k < front.len() implies is_session_file(#[trigger] front[k]) by {
            assert(front[k] == files[k]);
        }
        let before = lemma_summaries(front);
        assert(is_session_file(files[n]));
        lemma_session_file(last.name);
        lemma_written(last.lines);
        let at = if last.header is Some {
            before.push(n)
        } else {
            before
        };
        let all = summaries(files);
        assert forall|i: int| 0 <= i < at.len() implies 0 <= #[trigger] at[i] < files.len()
            && tells_of(all[i], files[at[i]]) by {
            if i < before.len() {
                assert(at[i] == before[i]);
                assert(tells_of(summaries(front)[i], front[before[i]]));
                assert(all[i] == summaries(front)[i]);
            }
        }
        assert forall|i: int, j: int| 0 <= i < j < at.len() implies #[trigger] at[i]
            < #[trigger] at[j] by {
            assert(at[i] == before[i]);
            if j < before.len() {
                assert(at[j] == before[j]);
            }
        }
        assert forall|k: int| 0 <= k < files.len() && (#[trigger] files[k]).header
            is Some implies at.contains(k) by {
            if k < n {
                assert(front[k].header is Some);
                assert(before.contains(k));
                let i = choose|i: int| 0 <= i < before.len() && before[i] == k;
                assert(at[i] == k);
            } else {
                assert(at[at.len() - 1] == n);
            }
        }
        at
    }
}

/// Every entry of the list says of a session file of the directory what its header says,
/// under the name of the file.
pub proof fn law_list_tells_of_the_files(files: Seq<FileView>, i: int)
    requires
        0 <= i < summaries(ordered(files)).len(),
    ensures
        exists|k: int|
            0 <= k < files.len() && tells_of(summaries(ordered(files))[i], #[trigger] files[k]),
{
    let sorted = ordered(files);
    assert forall|k: int| 0 <= k < sorted.len() implies is_session_file(#[trigger] sorted[k]) by {
        lemma_ordered(files, sorted[k]);
        assert(sorted.contains(sorted[k]));
    }
    let at = lemma_summaries(sorted);
    let file = sorted[at[i]];
    assert(sorted.contains(file));
    lemma_ordered(files, file);
    let k = choose|k: int| 0 <= k < files.len() && files[k] == file;
    assert(tells_of(summaries(sorted)[i], files[k]));
}

/// Every session file whose header can be read is in the list.
pub proof fn law_every_session_is_listed(files: Seq<FileView>, k: int)
    requires
        0 <= k < files.len(),
        extension(files[k].name) == Some("jsonl"@),
        files[k].header is Some,
    ensures
        exists|i: int|
            0 <= i < summaries(ordered(files)).len() && tells_of(
                #[trigger] summaries(ordered(files))[i],
                files[k],
            ),
{
    let sorted = ordered(files);
    assert forall|j: int| 0 <= j < sorted.len() implies is_session_file(#[trigger] sorted[j]) by {
        lemma_ordered(files, sorted[j]);
        assert(sorted.contains(sorted[j]));
    }
    let at = lemma_summaries(sorted);
    assert(files.contains(files[k]));
    lemma_ordered(files, files[k]);
    let j = choose|j: int| 0 <= j < sorted.len() && sorted[j] == files[k];
    assert(sorted[j].header is Some);
    let i = choose|i: int| 0 <= i < at.len() && at[i] == j;
    assert(tells_of(summaries(sorted)[i], sorted[at[i]]));
}

/// The list goes from the last file name to the first.
pub proof fn law_list_goes_backwards(files: Seq<FileView>, i: int, j: int)
    requires
        0 <= i < j < summaries(ordered(files)).len(),
    ensures
        !before(
            summaries(ordered(files))[i].id + ".jsonl"@,
            summaries(ordered(files))[j].id + ".jsonl"@,
        ),
{
    let sorted = ordered(files);
    assert forall|k: int| 0 <= k < sorted.len() implies is_session_file(#[trigger] sorted[k]) by {
        lemma_ordered(files, sorted[k]);
        assert(sorted.contains(sorted[k]));
    }
    let at = lemma_summaries(sorted);
    law_listing_sorted(files);
    assert(at[i] < at[j]);
    assert(tells_of(summaries(sorted)[i], sorted[at[i]]));
    assert(tells_of(summaries(sorted)[j], sorted[at[j]]));
}

/// Names are ordered by the first character in which they differ, and a name that another
/// begins with comes before it.
pub proof fn law_names_are_ordered(
    common: Seq<char>,
    a: char,
    b: char,
    rest_a: Seq<char>,
    rest_b: Seq<char>,
)
    ensures
        a != b ==> before(common + seq![a] + rest_a, common + seq![b] + rest_b) == (a < b),
        before(common, common + seq![b] + rest_b),
        !before(common + seq![b] + rest_b, common),
        !before(common, common),
    decreases common.len(),
{
    let x = common + seq![a] + rest_a;
    let y = common + seq![b] + rest_b;
    if common.len() == 0 {
        assert(x[0] == a);
        assert(y[0] == b);
    } else {
        let c = common.drop_first();
        law_names_are_ordered(c, a, b, rest_a, rest_b);
        assert(x.drop_first() =~= c + seq![a] + rest_a);
        assert(y.drop_first() =~= c + seq![b] + rest_b);
        assert(x[0] == common[0] && y[0] == common[0]);
    }
}

/// The messages of a session file are those of its lines that are JSON objects with the id
/// of a message, in order; other lines give none.
pub proof fn law_lines_give_their_messages(lines: Seq<Seq<char>>, line: Seq<char>)
    ensures
        line_ids(Seq::empty()).len() == 0,
        ({
            let id = if trimmed(line).len() == 0 {
                None
            } else {
                match parsed(trimmed(line)) {
                    Some(Json::Object(m)) => if m.contains_key("msg"@) {
                        m["msg"@].text()
                    } else {
                        None
                    },
                    _ => None,
                }
            };
            line_ids(lines.push(line)) == match id {
                Some(x) => line_ids(lines).push(x),
                None => line_ids(lines),
            }
        }),
{
    assert(lines.push(line).drop_last() =~= lines);
}

/// Errors are answered with the codes that HTTP has for them.
pub proof fn law_errors_have_their_codes(error: AppErrorView)
    ensures
        (error is Internal) == (error_status(error) == 500),
        (error is NotFound) == (error_status(error) == 404),
        (error is Conflict) == (error_status(error) == 409),
        (error is BadRequest) == (error_status(error) == 400),
        error == match error {
            AppErrorView::NotFound(_) => AppErrorView::NotFound(error_message(error)),
            AppErrorView::BadRequest(_) => AppErrorView::BadRequest(error_message(error)),
            AppErrorView::Conflict(_) => AppErrorView::Conflict(error_message(error)),
            AppErrorView::Internal(_) => AppErrorView::Internal(error_message(error)),
        },
{
}

} // verus!
