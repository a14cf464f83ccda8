//! The incremental synchronizer: diffs the index against a walked file
//! tree using the (path, mtime, size) staleness check, and drives
//! upsert/replace/remove calls inside one transaction per run.
//!
//! The filesystem walk itself, file reading, and the best-effort
//! version-control query live outside the library; this module takes their
//! results as plain values, decides everything, and writes the store.

use vstd::prelude::*;

use crate::index::{
    IndexError, IndexedSession, begin_tx, commit_tx, remove_session_tx, replace_messages_tx,
    rollback_tx, upsert_session_tx,
};
use crate::model::{
    MessageRecord, MessageRecordView, ParsedMessage, ParsedSession, RecordView, SessionRecord,
    SessionView,
};
use crate::parse::{ParseError, spec_parse_json, spec_parse_jsonl, spec_parse_markdown};
use crate::text::{lower, push_char, str_eq, to_lower_str};

verus! {

broadcast use vstd::std_specs::vec::group_vec_axioms;

/// The counters one synchronizer run reports.
pub struct ScanStats {
    pub scanned: usize,
    pub indexed: usize,
    pub skipped: usize,
    pub removed: usize,
    pub parse_errors: usize,
}

/// Why a synchronizer run aborted: only a store failure does.
#[derive(Debug)]
pub enum ScanError {
    Index { source: IndexError },
}

/// Repository context derived from a workspace directory, all best-effort.
pub struct RepoInfo {
    pub repo_root: Option<String>,
    pub repo_name: Option<String>,
    pub branch: Option<String>,
}

impl RepoInfo {
    /// Context with nothing known.
    pub fn unknown() -> (r: RepoInfo)
        ensures
            r.repo_root is None,
            r.repo_name is None,
            r.branch is None,
    {
        RepoInfo { repo_root: None, repo_name: None, branch: None }
    }
}

/// One candidate transcript file found under the root.
pub struct FileMeta {
    pub path: String,
    pub mtime: i64,
    pub size: i64,
    /// The file name extension, as found.
    pub ext: String,
}

/// One file the plan said to parse, with its contents and repository
/// context.
pub struct ScanInput {
    pub meta: FileMeta,
    pub contents: String,
    pub repo: RepoInfo,
}

/// The staleness triple stored for `path`, when the path is indexed.
pub open spec fn spec_lookup(existing: Seq<IndexedSession>, path: Seq<char>) -> Option<(i64, i64)>
    decreases existing.len(),
{
    if existing.len() == 0 {
        None
    } else if existing[0].path@ == path {
        Some((existing[0].mtime, existing[0].size))
    } else {
        spec_lookup(existing.drop_first(), path)
    }
}

/// Looks a path's stored staleness triple up.
pub fn lookup_triple(existing: &Vec<IndexedSession>, path: &str) -> (r: Option<(i64, i64)>)
    ensures
        r == spec_lookup(existing@, path@),
{
    let mut i: usize = 0;
    proof {
        assert(existing@.skip(0) =~= existing@);
    }
    while i < existing.len()
        invariant
            i <= existing@.len(),
            spec_lookup(existing@, path@) == spec_lookup(existing@.skip(i as int), path@),
        decreases existing@.len() - i,
    {
        proof {
            assert(existing@.skip(i as int)[0] == existing@[i as int]);
            assert(existing@.skip(i as int).drop_first() =~= existing@.skip(i + 1));
        }
        if str_eq(existing[i].path.as_str(), path) {
            return Some((existing[i].mtime, existing[i].size));
        }
        i += 1;
    }
    None
}

/// The staleness check: without a forced run, a file whose stored triple
/// matches exactly is skipped without being read.
pub open spec fn spec_should_skip(existing: Seq<IndexedSession>, full: bool, f: FileMeta) -> bool {
    !full && spec_lookup(existing, f.path@) == Some((f.mtime, f.size))
}

/// The indices of the files a run must read and parse, in walk order.
pub open spec fn spec_to_read(
    existing: Seq<IndexedSession>,
    files: Seq<FileMeta>,
    full: bool,
    i: int,
) -> Seq<int>
    decreases files.len() - i,
{
    if i < 0 || i >= files.len() {
        Seq::empty()
    } else if spec_should_skip(existing, full, files[i]) {
        spec_to_read(existing, files, full, i + 1)
    } else {
        seq![i] + spec_to_read(existing, files, full, i + 1)
    }
}

/// True when some walked file has this path.
pub open spec fn spec_path_seen(files: Seq<FileMeta>, path: Seq<char>) -> bool {
    exists|j: int| 0 <= j < files.len() && #[trigger] files[j].path@ == path
}

/// The stored paths the walk no longer found, in store order: their backing
/// files were deleted or moved, so their records must go.
pub open spec fn spec_removed_paths(
    existing: Seq<IndexedSession>,
    files: Seq<FileMeta>,
    i: int,
) -> Seq<Seq<char>>
    decreases existing.len() - i,
{
    if i < 0 || i >= existing.len() {
        Seq::empty()
    } else if spec_path_seen(files, existing[i].path@) {
        spec_removed_paths(existing, files, i + 1)
    } else {
        seq![existing[i].path@] + spec_removed_paths(existing, files, i + 1)
    }
}

/// True when some walked file has path `path`.
fn path_seen(files: &Vec<FileMeta>, path: &str) -> (r: bool)
    ensures
        r == spec_path_seen(files@, path@),
{
    let mut j: usize = 0;
    while j < files.len()
        invariant
            j <= files@.len(),
            forall|k: int| 0 <= k < j ==> #[trigger] files@[k].path@ != path@,
        decreases files@.len() - j,
    {
        if str_eq(files[j].path.as_str(), path) {
            proof {
                let w = j as int;
                assert(0 <= w < files@.len() && files@[w].path@ == path@);
            }
            return true;
        }
        j += 1;
    }
    false
}

/// What one run will do, before any file is read: which walked files to
/// parse, how many were skipped by the staleness check, and which stored
/// paths are stale because their files are gone.
pub struct ScanPlan {
    pub to_read: Vec<usize>,
    pub skipped: usize,
    pub stale: Vec<String>,
}

/// The index views of a plan's read list.
pub open spec fn read_indices(v: Seq<usize>) -> Seq<int> {
    v.map_values(|u: usize| u as int)
}

/// Plans one run: applies the staleness check to every walked file and
/// collects the stored paths whose files are gone.
pub fn plan_scan(existing: &Vec<IndexedSession>, files: &Vec<FileMeta>, full: bool) -> (r:
    ScanPlan)
    ensures
        read_indices(r.to_read@) == spec_to_read(existing@, files@, full, 0),
        r.skipped == files@.len() - r.to_read@.len(),
        r.to_read@.len() <= files@.len(),
        r.stale.deep_view() == spec_removed_paths(existing@, files@, 0),
        forall|k: int| 0 <= k < r.to_read@.len() ==> #[trigger] r.to_read@[k] < files@.len(),
{
    let mut to_read: Vec<usize> = Vec::new();
    let mut i: usize = 0;
    proof {
        assert(read_indices(to_read@) =~= Seq::<int>::empty());
    }
    while i < files.len()
        invariant
            i <= files@.len(),
            to_read@.len() <= i,
            spec_to_read(existing@, files@, full, 0) == read_indices(to_read@) + spec_to_read(
                existing@,
                files@,
                full,
                i as int,
            ),
            forall|k: int| 0 <= k < to_read@.len() ==> #[trigger] to_read@[k] < files@.len(),
        decreases files@.len() - i,
    {
        let skip = !full && {
            match lookup_triple(existing, files[i].path.as_str()) {
                Some((m, z)) => m == files[i].mtime && z == files[i].size,
                None => false,
            }
        };
        let ghost prev = to_read@;
        if !skip {
            to_read.push(i);
            proof {
                assert(read_indices(to_read@) =~= read_indices(prev).push(i as int));
                assert(read_indices(prev).push(i as int) + spec_to_read(
                    existing@,
                    files@,
                    full,
                    i + 1,
                ) =~= read_indices(prev) + (seq![i as int] + spec_to_read(
                    existing@,
                    files@,
                    full,
                    i + 1,
                )));
            }
        }
        i += 1;
    }
    proof {
        assert(read_indices(to_read@) + Seq::<int>::empty() =~= read_indices(to_read@));
    }
    let skipped = files.len() - to_read.len();
    let mut stale: Vec<String> = Vec::new();
    let mut j: usize = 0;
    proof {
        assert(stale.deep_view() =~= Seq::<Seq<char>>::empty());
        assert(stale.deep_view() + spec_removed_paths(existing@, files@, 0) =~= spec_removed_paths(
            existing@,
            files@,
            0,
        ));
    }
    while j < existing.len()
        invariant
            j <= existing@.len(),
            spec_removed_paths(existing@, files@, 0) == stale.deep_view() + spec_removed_paths(
                existing@,
                files@,
                j as int,
            ),
        decreases existing@.len() - j,
    {
        let ghost prev = stale.deep_view();
        if !path_seen(files, existing[j].path.as_str()) {
            let p = existing[j].path.clone();
            stale.push(p);
            proof {
                assert(stale.deep_view() =~= prev.push(existing@[j as int].path@));
                assert(prev.push(existing@[j as int].path@) + spec_removed_paths(
                    existing@,
                    files@,
                    j + 1,
                ) =~= prev + (seq![existing@[j as int].path@] + spec_removed_paths(
                    existing@,
                    files@,
                    j + 1,
                )));
            }
        }
        j += 1;
    }
    proof {
        assert(stale.deep_view() + Seq::<Seq<char>>::empty() =~= stale.deep_view());
    }
    ScanPlan { to_read, skipped, stale }
}

/// What a file's declared extension makes of its bytes; an unrecognized
/// extension degrades to an empty session rather than an error.
pub open spec fn spec_parse_by_ext(ext: Seq<char>, text: Seq<char>) -> Option<SessionView> {
    if ext == "jsonl"@ {
        match spec_parse_jsonl(text) {
            Ok(s) => Some(s),
            Err(_) => None,
        }
    } else if ext == "json"@ {
        spec_parse_json(text)
    } else if ext == "md"@ {
        Some(spec_parse_markdown(text))
    } else {
        Some(crate::parse::spec_build_session(Seq::empty(), crate::parse::empty_meta()))
    }
}

/// Dispatches a lowercased extension name to its format parser.
pub fn parse_by_extension(ext: &str, contents: &str) -> (r: Result<ParsedSession, ParseError>)
    ensures
        match r {
            Ok(s) => spec_parse_by_ext(ext@, contents@) == Some(s@),
            Err(_) => spec_parse_by_ext(ext@, contents@) is None,
        },
{
    if str_eq(ext, "jsonl") {
        crate::parse::parse_jsonl(contents)
    } else if str_eq(ext, "json") {
        crate::parse::parse_json(contents)
    } else if str_eq(ext, "md") {
        Ok(crate::parse::parse_markdown(contents))
    } else {
        let r = ParsedSession::empty();
        proof {
            let sv = crate::parse::spec_build_session(Seq::empty(), crate::parse::empty_meta());
            assert(crate::parse::spec_content_lines(Seq::empty()) =~= Seq::<Seq<char>>::empty());
            assert(sv.content =~= Seq::<char>::empty());
            assert(crate::text::spec_trim(Seq::<char>::empty()) =~= Seq::<char>::empty());
            assert(sv.snippet =~= Seq::<char>::empty());
            assert(r@.content =~= Seq::<char>::empty());
            assert(r@.snippet =~= Seq::<char>::empty());
            assert(r@.messages =~= Seq::<crate::model::MsgView>::empty());
            assert(r@ == sv);
        }
        Ok(r)
    }
}

/// The message rows a parsed message list persists: turn indices contiguous
/// from zero, in normalization order.
pub open spec fn spec_message_rows(msgs: Seq<crate::model::MsgView>) -> Seq<MessageRecordView> {
    Seq::new(
        msgs.len(),
        |i: int| MessageRecordView {
            turn_index: i,
            role: msgs[i].role,
            timestamp: msgs[i].timestamp,
            text: msgs[i].text,
        },
    )
}

/// Builds the message rows of a session, assigning contiguous turn indices.
pub fn build_message_rows(msgs: &Vec<ParsedMessage>) -> (r: Vec<MessageRecord>)
    requires
        msgs@.len() <= i64::MAX,
    ensures
        r@.len() == msgs@.len(),
        forall|i: int|
            0 <= i < r@.len() ==> #[trigger] r@[i]@ == spec_message_rows(
                crate::parse::msg_views(msgs@),
            )[i],
{
    let mut r: Vec<MessageRecord> = Vec::new();
    let mut i: usize = 0;
    while i < msgs.len()
        invariant
            i <= msgs@.len(),
            msgs@.len() <= i64::MAX,
            r@.len() == i,
            forall|k: int|
                0 <= k < i ==> #[trigger] r@[k]@ == spec_message_rows(
                    crate::parse::msg_views(msgs@),
                )[k],
        decreases msgs@.len() - i,
    {
        let m = &msgs[i];
        let role = match &m.role {
            Some(s) => Some(s.clone()),
            None => None,
        };
        let timestamp = match &m.timestamp {
            Some(s) => Some(s.clone()),
            None => None,
        };
        r.push(
            MessageRecord { turn_index: i as i64, role, timestamp, text: m.text.clone() },
        );
        i += 1;
    }
    r
}

/// The session row one parsed file persists: the summary under the file's
/// identity and staleness fields, with the derived repository context.
pub open spec fn spec_session_row(meta: FileMeta, sv: SessionView, repo: RepoInfo) -> RecordView {
    RecordView {
        path: meta.path@,
        mtime: meta.mtime as int,
        size: meta.size as int,
        hash: None,
        created_at: sv.created_at,
        last_message_at: sv.last_message_at,
        agent: sv.agent,
        workspace: sv.workspace,
        title: sv.title,
        message_count: sv.message_count,
        snippet: sv.snippet,
        content: sv.content,
        repo_root: repo.repo_root.deep_view(),
        repo_name: repo.repo_name.deep_view(),
        branch: repo.branch.deep_view(),
    }
}

/// Builds the session row a parsed file persists.
pub fn build_session_row(meta: &FileMeta, parsed: ParsedSession, repo: &RepoInfo) -> (r:
    SessionRecord)
    requires
        parsed.message_count <= i64::MAX,
    ensures
        r@ == spec_session_row(*meta, parsed@, *repo),
{
    let mut record = parsed.into_record(meta.path.clone(), meta.mtime, meta.size, None);
    record.repo_root = match &repo.repo_root {
        Some(s) => Some(s.clone()),
        None => None,
    };
    record.repo_name = match &repo.repo_name {
        Some(s) => Some(s.clone()),
        None => None,
    };
    record.branch = match &repo.branch {
        Some(s) => Some(s.clone()),
        None => None,
    };
    record
}

/// What indexing one read file did.
pub enum FileOutcome {
    /// The file parsed; its rows were fully replaced.
    Indexed,
    /// The file failed to parse; when it was previously indexed, its stale
    /// record was removed so search never serves outdated content.
    ParseFailed { removed: bool },
}

/// Indexes one read file inside the caller's open transaction: on a
/// successful parse the session row and its full message set are replaced;
/// on a parse failure a previously indexed record is removed.
pub fn index_file(
    conn: &rusqlite::Connection,
    meta: &FileMeta,
    contents: &str,
    repo: &RepoInfo,
    previously_indexed: bool,
) -> (r: Result<FileOutcome, IndexError>)
    ensures
        match r {
            Ok(FileOutcome::Indexed) => spec_parse_by_ext(lower(meta.ext@), contents@) is Some,
            Ok(FileOutcome::ParseFailed { removed }) => spec_parse_by_ext(
                lower(meta.ext@),
                contents@,
            ) is None && removed == previously_indexed,
            Err(_) => true,
        },
{
    let ext = to_lower_str(meta.ext.as_str());
    let parsed = match parse_by_extension(ext.as_str(), contents) {
        Ok(p) => p,
        Err(_) => {
            if previously_indexed {
                match remove_session_tx(conn, meta.path.as_str()) {
                    Ok(()) => {},
                    Err(e) => {
                        return Err(e);
                    },
                }
                return Ok(FileOutcome::ParseFailed { removed: true });
            }
            return Ok(FileOutcome::ParseFailed { removed: false });
        },
    };
    if (parsed.message_count as u64) > (i64::MAX as u64) {
        return Err(IndexError::BadRow);
    }
    if (parsed.messages.len() as u64) > (i64::MAX as u64) {
        return Err(IndexError::BadRow);
    }
    let messages = build_message_rows(&parsed.messages);
    let record = build_session_row(meta, parsed, repo);
    match upsert_session_tx(conn, &record) {
        Ok(()) => {},
        Err(e) => {
            return Err(e);
        },
    }
    match replace_messages_tx(conn, record.path.as_str(), &messages) {
        Ok(()) => {},
        Err(e) => {
            return Err(e);
        },
    }
    Ok(FileOutcome::Indexed)
}

/// How many of the inputs from `i` on parse successfully.
pub open spec fn ok_count(inputs: Seq<ScanInput>, i: int) -> int
    decreases inputs.len() - i,
{
    if i < 0 || i >= inputs.len() {
        0
    } else if spec_parse_by_ext(lower(inputs[i].meta.ext@), inputs[i].contents@) is Some {
        1 + ok_count(inputs, i + 1)
    } else {
        ok_count(inputs, i + 1)
    }
}

/// How many of the inputs from `i` on fail to parse while previously
/// indexed, so that their stale records are removed.
pub open spec fn stale_on_error_count(
    inputs: Seq<ScanInput>,
    existing: Seq<IndexedSession>,
    i: int,
) -> int
    decreases inputs.len() - i,
{
    if i < 0 || i >= inputs.len() {
        0
    } else if spec_parse_by_ext(lower(inputs[i].meta.ext@), inputs[i].contents@) is None
        && spec_lookup(existing, inputs[i].meta.path@) is Some {
        1 + stale_on_error_count(inputs, existing, i + 1)
    } else {
        stale_on_error_count(inputs, existing, i + 1)
    }
}

proof fn lemma_ok_count_bounds(inputs: Seq<ScanInput>, i: int)
    ensures
        0 <= ok_count(inputs, i),
        i <= inputs.len() ==> ok_count(inputs, i) <= inputs.len() - i,
    decreases inputs.len() - i,
{
    if 0 <= i < inputs.len() {
        lemma_ok_count_bounds(inputs, i + 1);
    }
}

proof fn lemma_stale_count_bounds(inputs: Seq<ScanInput>, existing: Seq<IndexedSession>, i: int)
    ensures
        0 <= stale_on_error_count(inputs, existing, i),
        i <= inputs.len() ==> stale_on_error_count(inputs, existing, i) <= inputs.len() - i,
    decreases inputs.len() - i,
{
    if 0 <= i < inputs.len() {
        lemma_stale_count_bounds(inputs, existing, i + 1);
    }
}

/// Applies one planned run against the store, inside a single transaction:
/// parses every read file, replacing or removing its rows, then removes the
/// stale paths; the run commits as one unit or rolls back entirely.
pub fn apply_scan(
    conn: &mut rusqlite::Connection,
    existing: &Vec<IndexedSession>,
    inputs: &Vec<ScanInput>,
    stale: &Vec<String>,
    skipped: usize,
) -> (r: Result<ScanStats, ScanError>)
    requires
        skipped + inputs@.len() <= usize::MAX,
        stale@.len() + inputs@.len() <= usize::MAX,
    ensures
        match r {
            Ok(stats) => {
                &&& stats.scanned == skipped + inputs@.len()
                &&& stats.skipped == skipped
                &&& stats.indexed == ok_count(inputs@, 0)
                &&& stats.parse_errors == inputs@.len() - ok_count(inputs@, 0)
                &&& stats.removed == stale@.len() + stale_on_error_count(inputs@, existing@, 0)
            },
            Err(_) => true,
        },
{
    match begin_tx(conn) {
        Ok(()) => {},
        Err(e) => {
            return Err(ScanError::Index { source: e });
        },
    }
    let mut indexed: usize = 0;
    let mut parse_errors: usize = 0;
    let mut removed: usize = 0;
    let mut i: usize = 0;
    while i < inputs.len()
        invariant
            i <= inputs@.len(),
            indexed + parse_errors == i,
            removed <= i,
            ok_count(inputs@, 0) == indexed + ok_count(inputs@, i as int),
            stale_on_error_count(inputs@, existing@, 0) == removed + stale_on_error_count(
                inputs@,
                existing@,
                i as int,
            ),
        decreases inputs@.len() - i,
    {
        let input = &inputs[i];
        let previously = lookup_triple(existing, input.meta.path.as_str()).is_some();
        let outcome = match index_file(
            conn,
            &input.meta,
            input.contents.as_str(),
            &input.repo,
            previously,
        ) {
            Ok(o) => o,
            Err(e) => {
                rollback_tx(conn);
                return Err(ScanError::Index { source: e });
            },
        };
        match outcome {
            FileOutcome::Indexed => {
                indexed += 1;
            },
            FileOutcome::ParseFailed { removed: was_removed } => {
                parse_errors += 1;
                if was_removed {
                    removed += 1;
                }
            },
        }
        i += 1;
    }
    proof {
        lemma_ok_count_bounds(inputs@, 0);
        lemma_stale_count_bounds(inputs@, existing@, 0);
    }
    let mut j: usize = 0;
    let ghost removed_before_stale = removed as int;
    while j < stale.len()
        invariant
            j <= stale@.len(),
            removed == removed_before_stale + j,
            removed_before_stale == stale_on_error_count(inputs@, existing@, 0),
            removed_before_stale <= inputs@.len(),
            stale@.len() + inputs@.len() <= usize::MAX,
        decreases stale@.len() - j,
    {
        match remove_session_tx(conn, stale[j].as_str()) {
            Ok(()) => {},
            Err(e) => {
                rollback_tx(conn);
                return Err(ScanError::Index { source: e });
            },
        }
        removed += 1;
        j += 1;
    }
    match commit_tx(conn) {
        Ok(()) => {},
        Err(e) => {
            rollback_tx(conn);
            return Err(ScanError::Index { source: e });
        },
    }
    Ok(
        ScanStats {
            scanned: skipped + inputs.len(),
            indexed,
            skipped,
            removed,
            parse_errors,
        },
    )
}

proof fn lemma_unchanged_skips_from(existing: Seq<IndexedSession>, files: Seq<FileMeta>, i: int)
    requires
        forall|k: int|
            0 <= k < files.len() ==> spec_lookup(existing, #[trigger] files[k].path@) == Some(
                (files[k].mtime, files[k].size),
            ),
    ensures
        spec_to_read(existing, files, false, i).len() == 0,
    decreases files.len() - i,
{
    if 0 <= i < files.len() {
        lemma_unchanged_skips_from(existing, files, i + 1);
    }
}

/// Round-trip: re-scanning files whose stored staleness triples still match
/// exactly, without forcing, re-parses nothing — every file is skipped and
/// none is read.
pub proof fn lemma_unchanged_rescan_skips_all(existing: Seq<IndexedSession>, files: Seq<FileMeta>)
    requires
        forall|k: int|
            0 <= k < files.len() ==> spec_lookup(existing, #[trigger] files[k].path@) == Some(
                (files[k].mtime, files[k].size),
            ),
    ensures
        spec_to_read(existing, files, false, 0).len() == 0,
{
    lemma_unchanged_skips_from(existing, files, 0);
}

proof fn lemma_to_read_has_from(
    existing: Seq<IndexedSession>,
    files: Seq<FileMeta>,
    full: bool,
    i: int,
    idx: int,
)
    requires
        0 <= i <= idx < files.len(),
        !spec_should_skip(existing, full, files[idx]),
    ensures
        spec_to_read(existing, files, full, i).contains(idx),
    decreases files.len() - i,
{
    if i < idx {
        lemma_to_read_has_from(existing, files, full, i + 1, idx);
        let rest = spec_to_read(existing, files, full, i + 1);
        let w = choose|w: int| 0 <= w < rest.len() && rest[w] == idx;
        if spec_should_skip(existing, full, files[i]) {
        } else {
            assert(spec_to_read(existing, files, full, i)[w + 1] == idx);
        }
    } else {
        assert(spec_to_read(existing, files, full, i)[0] == idx);
    }
}

/// Replacement, first half: a file whose stored triple no longer matches its
/// current modification time and size is re-read and re-parsed (its rows are
/// then fully replaced by [`index_file`]).
pub proof fn lemma_changed_file_is_reparsed(
    existing: Seq<IndexedSession>,
    files: Seq<FileMeta>,
    idx: int,
)
    requires
        0 <= idx < files.len(),
        spec_lookup(existing, files[idx].path@) != Some((files[idx].mtime, files[idx].size)),
    ensures
        spec_to_read(existing, files, false, 0).contains(idx),
{
    lemma_to_read_has_from(existing, files, false, 0, idx);
}

proof fn lemma_removed_has_from(
    existing: Seq<IndexedSession>,
    files: Seq<FileMeta>,
    i: int,
    idx: int,
)
    requires
        0 <= i <= idx < existing.len(),
        !spec_path_seen(files, existing[idx].path@),
    ensures
        spec_removed_paths(existing, files, i).contains(existing[idx].path@),
    decreases existing.len() - i,
{
    if i < idx {
        lemma_removed_has_from(existing, files, i + 1, idx);
        let rest = spec_removed_paths(existing, files, i + 1);
        let p = existing[idx].path@;
        let w = choose|w: int| 0 <= w < rest.len() && rest[w] == p;
        if spec_path_seen(files, existing[i].path@) {
        } else {
            assert(spec_removed_paths(existing, files, i)[w + 1] == p);
        }
    } else {
        assert(spec_removed_paths(existing, files, i)[0] == existing[idx].path@);
    }
}

/// Removal: an indexed path whose backing file the walk no longer found is
/// in the run's removal set, so its session, messages and shadow entries
/// are deleted.
pub proof fn lemma_deleted_file_is_removed(
    existing: Seq<IndexedSession>,
    files: Seq<FileMeta>,
    idx: int,
)
    requires
        0 <= idx < existing.len(),
        !spec_path_seen(files, existing[idx].path@),
    ensures
        spec_removed_paths(existing, files, 0).contains(existing[idx].path@),
{
    lemma_removed_has_from(existing, files, 0, idx);
}

/// True when `s` holds the `--` flattening marker somewhere.
pub open spec fn contains_dd(s: Seq<char>) -> bool {
    exists|i: int| 0 <= i && i + 1 < s.len() && (#[trigger] s[i]) == '-' && s[i + 1] == '-'
}

/// `s` with each `--` pair decoded back to a path separator, left to right.
pub open spec fn spec_replace_dd(s: Seq<char>) -> Seq<char>
    decreases s.len(),
{
    if s.len() < 2 {
        s
    } else if s[0] == '-' && s[1] == '-' {
        seq!['/'] + spec_replace_dd(s.skip(2))
    } else {
        seq![s[0]] + spec_replace_dd(s.skip(1))
    }
}

/// `s` with runs of path separators collapsed to one.
pub open spec fn spec_collapse_slashes(s: Seq<char>) -> Seq<char>
    decreases s.len(),
{
    if s.len() == 0 {
        Seq::empty()
    } else if s.len() >= 2 && s[0] == '/' && s[1] == '/' {
        spec_collapse_slashes(s.skip(1))
    } else {
        seq![s[0]] + spec_collapse_slashes(s.skip(1))
    }
}

/// `s` with a leading path separator ensured.
pub open spec fn spec_lead_slash(s: Seq<char>) -> Seq<char> {
    if s.len() > 0 && s[0] == '/' {
        s
    } else {
        seq!['/'] + s
    }
}

/// The workspace path a flattened directory-name component encodes:
/// `--` pairs become separators, separator runs collapse, and the result is
/// rooted; a component without the marker encodes nothing.  Whether the
/// decoded path names an existing directory is the caller's check.
pub open spec fn spec_decode_workspace(component: Seq<char>) -> Option<Seq<char>> {
    if contains_dd(component) {
        Some(spec_lead_slash(spec_collapse_slashes(spec_replace_dd(component))))
    } else {
        None
    }
}

/// Decodes a `--`-flattened directory-name component back to the workspace
/// path it encodes.
pub fn decode_workspace_component(component: &str) -> (r: Option<String>)
    ensures
        match r {
            Some(p) => spec_decode_workspace(component@) == Some(p@),
            None => spec_decode_workspace(component@) is None,
        },
{
    let n = component.unicode_len();
    let limit: usize = if n == 0 {
        0
    } else {
        n - 1
    };
    let mut found_dd: bool = false;
    let mut i: usize = 0;
    while i < limit
        invariant
            i <= limit,
            n == component@.len(),
            limit == (if n == 0 {
                0int
            } else {
                n - 1
            }),
            !found_dd ==> forall|k: int|
                0 <= k < i ==> !((#[trigger] component@[k]) == '-' && component@[k + 1] == '-'),
            found_dd ==> contains_dd(component@),
        decreases limit - i,
    {
        if !found_dd && component.get_char(i) == '-' && component.get_char(i + 1) == '-' {
            found_dd = true;
            proof {
                let w = i as int;
                assert(0 <= w && w + 1 < component@.len() && component@[w] == '-' && component@[w
                    + 1] == '-');
            }
        }
        i += 1;
    }
    if !found_dd {
        proof {
            assert forall|k: int| !(0 <= k && k + 1 < component@.len() && (#[trigger] component@[k])
                == '-' && component@[k + 1] == '-') by {
                if 0 <= k && k + 1 < component@.len() {
                    assert(k < limit as int);
                }
            }
        }
        return None;
    }
    let mut replaced = String::new();
    let mut j: usize = 0;
    proof {
        assert(component@.skip(0) =~= component@);
        assert(replaced@ + spec_replace_dd(component@) =~= spec_replace_dd(component@));
    }
    while j < n
        invariant
            j <= n,
            n == component@.len(),
            spec_replace_dd(component@) == replaced@ + spec_replace_dd(component@.skip(j as int)),
        decreases n - j,
    {
        proof {
            assert(component@.skip(j as int)[0] == component@[j as int]);
            if j + 1 < n {
                assert(component@.skip(j as int)[1] == component@[j + 1]);
            }
            assert(component@.skip(j as int).skip(1) =~= component@.skip(j + 1));
            if j + 2 <= n {
                assert(component@.skip(j as int).skip(2) =~= component@.skip(j + 2));
            }
        }
        if j + 1 < n && component.get_char(j) == '-' && component.get_char(j + 1) == '-' {
            push_char(&mut replaced, '/');
            j += 2;
        } else {
            push_char(&mut replaced, component.get_char(j));
            j += 1;
        }
    }
    proof {
        assert(spec_replace_dd(component@.skip(n as int)) =~= Seq::<char>::empty());
        assert(replaced@ + Seq::<char>::empty() =~= replaced@);
    }
    let rn = replaced.as_str().unicode_len();
    let mut collapsed = String::new();
    let mut k: usize = 0;
    proof {
        assert(replaced@.skip(0) =~= replaced@);
        assert(collapsed@ + spec_collapse_slashes(replaced@) =~= spec_collapse_slashes(replaced@));
    }
    while k < rn
        invariant
            k <= rn,
            rn == replaced@.len(),
            spec_collapse_slashes(replaced@) == collapsed@ + spec_collapse_slashes(
                replaced@.skip(k as int),
            ),
        decreases rn - k,
    {
        proof {
            assert(replaced@.skip(k as int)[0] == replaced@[k as int]);
            if k + 1 < rn {
                assert(replaced@.skip(k as int)[1] == replaced@[k + 1]);
            }
            assert(replaced@.skip(k as int).skip(1) =~= replaced@.skip(k + 1));
        }
        if k + 1 < rn && replaced.as_str().get_char(k) == '/' && replaced.as_str().get_char(k + 1)
            == '/' {
            k += 1;
        } else {
            push_char(&mut collapsed, replaced.as_str().get_char(k));
            k += 1;
        }
    }
    proof {
        assert(spec_collapse_slashes(replaced@.skip(rn as int)) =~= Seq::<char>::empty());
        assert(collapsed@ + Seq::<char>::empty() =~= collapsed@);
    }
    let cn = collapsed.as_str().unicode_len();
    if cn > 0 && collapsed.as_str().get_char(0) == '/' {
        Some(collapsed)
    } else {
        let mut rooted = String::new();
        push_char(&mut rooted, '/');
        rooted.append(collapsed.as_str());
        proof {
            assert(rooted@ =~= seq!['/'] + collapsed@);
        }
        Some(rooted)
    }
}

/// The workspace a transcript path's parent directory name encodes.
pub open spec fn spec_decode_workspace_from_path(session_path: Seq<char>) -> Option<Seq<char>> {
    let w = crate::text::rfind_char(session_path, '/', session_path.len() as int);
    if w == -1 {
        None
    } else {
        let parent = session_path.take(w);
        let b = parent.skip(crate::text::rfind_char(parent, '/', parent.len() as int) + 1);
        if b.len() == 0 {
            None
        } else {
            spec_decode_workspace(b)
        }
    }
}

/// Decodes the workspace directory a transcript path's parent directory
/// name flattens.
pub fn decode_workspace_from_session_path(session_path: &str) -> (r: Option<String>)
    ensures
        match r {
            Some(p) => spec_decode_workspace_from_path(session_path@) == Some(p@),
            None => spec_decode_workspace_from_path(session_path@) is None,
        },
{
    let w = match crate::text::rfind_char_from(session_path, '/') {
        Some(w) => w,
        None => {
            return None;
        },
    };
    let parent = session_path.substring_char(0, w);
    proof {
        assert(parent@ =~= session_path@.take(w as int));
    }
    let pn = parent.unicode_len();
    let bstart = match crate::text::rfind_char_from(parent, '/') {
        Some(x) => x + 1,
        None => 0,
    };
    let b = parent.substring_char(bstart, pn);
    proof {
        assert(b@ =~= parent@.skip(
            crate::text::rfind_char(parent@, '/', parent@.len() as int) + 1,
        ));
    }
    if b.is_empty() {
        return None;
    }
    decode_workspace_component(b)
}

/// The workspace directory a session's declared workspace field names,
/// expanded against the home directory; `~` paths without a known home
/// resolve to nothing.  Whether it names an existing directory is the
/// caller's check.
pub open spec fn spec_workspace_from_meta(
    workspace: Option<Seq<char>>,
    home: Option<Seq<char>>,
) -> Option<Seq<char>> {
    match workspace {
        Some(w) => if w.len() >= 2 && w.take(2) == "~/"@ && home is None {
            None
        } else {
            Some(crate::util::spec_expand_home(w, home))
        },
        None => None,
    }
}

/// Resolves a declared workspace path, expanding a home-relative prefix.
pub fn workspace_path_from_meta(workspace: Option<&str>, home: Option<&str>) -> (r: Option<String>)
    ensures
        r.deep_view() == spec_workspace_from_meta(
            match workspace {
                Some(w) => Some(w@),
                None => None,
            },
            match home {
                Some(h) => Some(h@),
                None => None,
            },
        ),
{
    let w = match workspace {
        Some(w) => w,
        None => {
            return None;
        },
    };
    if crate::text::starts_with_str(w, "~/") {
        proof {
            reveal_strlit("~/");
            assert("~/"@.len() == 2);
        }
        match home {
            Some(_) => Some(crate::util::expand_home(w, home)),
            None => None,
        }
    } else {
        proof {
            reveal_strlit("~/");
            assert("~/"@.len() == 2);
        }
        Some(crate::util::expand_home(w, home))
    }
}

/// The branch a `rev-parse --abbrev-ref HEAD` output names: the literal
/// `HEAD` means a detached head and names no branch.
pub open spec fn spec_branch_from_head(name: Seq<char>) -> Option<Seq<char>> {
    if name == "HEAD"@ {
        None
    } else {
        Some(name)
    }
}

/// Filters the version-control branch output: a detached head is treated
/// as no branch.
pub fn branch_from_head(name: String) -> (r: Option<String>)
    ensures
        r.deep_view() == spec_branch_from_head(name@),
{
    if str_eq(name.as_str(), "HEAD") {
        None
    } else {
        Some(name)
    }
}

/// The repository name a root path carries: its final path component,
/// absent when the path ends in a separator or is empty.
pub open spec fn spec_repo_name_of(root: Seq<char>) -> Option<Seq<char>> {
    let b = root.skip(crate::text::rfind_char(root, '/', root.len() as int) + 1);
    if b.len() == 0 {
        None
    } else {
        Some(b)
    }
}

/// Derives the repository name from a resolved repository root path.
pub fn repo_name_of(root: &str) -> (r: Option<String>)
    ensures
        r.deep_view() == spec_repo_name_of(root@),
{
    let n = root.unicode_len();
    let start = match crate::text::rfind_char_from(root, '/') {
        Some(w) => w + 1,
        None => 0,
    };
    let b = root.substring_char(start, n);
    proof {
        assert(b@ =~= root@.skip(crate::text::rfind_char(root@, '/', root@.len() as int) + 1));
    }
    if b.is_empty() {
        None
    } else {
        Some(b.to_owned())
    }
}

/// Idempotence: indexing the same unmodified file twice — equal path,
/// staleness fields, extension, contents and repository context — builds
/// identical session and message rows both times.
pub proof fn lemma_forced_reindex_identical(
    m1: FileMeta,
    m2: FileMeta,
    c1: Seq<char>,
    c2: Seq<char>,
    r1: RepoInfo,
    r2: RepoInfo,
)
    requires
        m1.path@ == m2.path@,
        m1.mtime == m2.mtime,
        m1.size == m2.size,
        lower(m1.ext@) == lower(m2.ext@),
        c1 == c2,
        r1.repo_root.deep_view() == r2.repo_root.deep_view(),
        r1.repo_name.deep_view() == r2.repo_name.deep_view(),
        r1.branch.deep_view() == r2.branch.deep_view(),
    ensures
        match (spec_parse_by_ext(lower(m1.ext@), c1), spec_parse_by_ext(lower(m2.ext@), c2)) {
            (Some(s1), Some(s2)) => spec_session_row(m1, s1, r1) == spec_session_row(m2, s2, r2)
                && spec_message_rows(s1.messages) == spec_message_rows(s2.messages),
            (None, None) => true,
            _ => false,
        },
{
}

} // verus!
