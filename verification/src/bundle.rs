//! Bundling a project of virtual files.
//!
//! A [`BundleRun`] decides what is done next; whoever drives it does it, and tells how it went.
use vstd::prelude::*;

use crate::compile::{CodeWithSourcemap, TransformOutput, TransformOutputView};
use crate::config::{
    build_bundle_options, is_bundle_config, pair_texts, BundleConfig, BundleOptions,
};
use crate::externals::{collect_external_specifiers, project_errors, project_packages};
use crate::json::json_of;
use crate::paths::{
    invalid_filename, is_name, law_normalization_is_idempotent, law_parts_are_names,
    normalize_virtual_path, normalized, path_parts,
};
use crate::preamble::{inject_preamble, injected};
use crate::sorted::{ascending, SortedStrings};
use crate::sourcemap::{
    is_moved_text, law_maps_are_written_again, relativize_sourcemap_sources, relativized_text,
    sources_keep_names,
};
use crate::text::{debug_quoted, debug_text, failure, hold_texts, optional_text, texts};

verus! {

/// A chunk of code that the bundler made, with its source map as JSON.
#[derive(Debug)]
pub struct BundleChunk {
    pub code: String,
    pub map: Option<String>,
}

/// What the bundler made.
#[derive(Debug)]
pub enum BundleAsset {
    Chunk(BundleChunk),
    /// A file that is no code.
    Asset,
}

/// What came of the work that was asked for.
#[derive(Debug)]
pub enum BundleEvent {
    /// The project's directory is there, under this path.
    DirectoryReady(String),
    /// It could not be made; why.
    DirectoryFailed(String),
    /// The file was written.
    FileWritten,
    /// The directory of the file could not be made; why.
    ParentFailed(String),
    /// The file could not be written; why.
    WriteFailed(String),
    /// The bundler's runtime could not be started; why.
    RuntimeFailed(String),
    /// The bundler refused; its messages.
    BundlerFailed(Vec<String>),
    /// The bundler made these.
    Bundled(Vec<BundleAsset>),
}

/// A bundle's code, with its source map where one was asked for; or messages of errors.
pub type BundleOutcome = Result<(String, Option<String>), Vec<String>>;

/// The outcome as characters.
pub type BundleOutcomeView = Result<(Seq<char>, Option<Seq<char>>), Seq<Seq<char>>>;

/// The characters of an outcome.
pub open spec fn outcome_view(r: BundleOutcome) -> BundleOutcomeView {
    match r {
        Ok((code, map)) => Ok((code@, optional_text(map))),
        Err(messages) => Err(texts(messages@)),
    }
}

/// What is to be done next.
#[derive(Debug)]
pub enum BundleAction {
    /// Make a directory for the project.
    CreateDirectory,
    /// Write a file below that directory.
    WriteFile { path: String, source: String },
    /// Run the bundler.
    Bundle(BundleConfig),
    /// Nothing: this is the outcome.
    Finish(BundleOutcome),
}

/// How far a run is.
#[derive(Debug)]
enum BundleStage {
    /// The project's directory is being made.
    Preparing,
    /// The file before `next` is being written; `written` holds the paths that are taken.
    Writing { cwd: String, written: SortedStrings, next: usize },
    /// The bundler is at work.
    Bundling { cwd: String },
    Done,
}

/// How far a run is, with paths as characters and the taken ones as a set.
#[verifier::ext_equal]
pub enum StageView {
    Preparing,
    Writing { cwd: Seq<char>, written: Set<Seq<char>>, next: int },
    Bundling { cwd: Seq<char> },
    Done,
}

impl View for BundleStage {
    type V = StageView;

    closed spec fn view(&self) -> StageView {
        match *self {
            BundleStage::Preparing => StageView::Preparing,
            BundleStage::Writing { cwd, written, next } => StageView::Writing {
                cwd: cwd@,
                written: written@.to_set(),
                next: next as int,
            },
            BundleStage::Bundling { cwd } => StageView::Bundling { cwd: cwd@ },
            BundleStage::Done => StageView::Done,
        }
    }
}

/// What is to be done next, as characters.
pub enum ActionView {
    CreateDirectory,
    WriteFile { path: Seq<char>, source: Seq<char> },
    Bundle { cwd: Seq<char> },
    Finish(BundleOutcomeView),
}

/// The bundling of one project.
#[derive(Debug)]
pub struct BundleRun {
    files: Vec<(String, String)>,
    opts: BundleOptions,
    entry_name: String,
    external: Vec<String>,
    stage: BundleStage,
}

/// The paths of the first `count` files.
pub open spec fn paths_of(files: Seq<(Seq<char>, Seq<char>)>, count: int) -> Set<Seq<char>> {
    Set::new(
        |path: Seq<char>|
            exists|i: int|
                0 <= i < count && normalized((#[trigger] files[i]).0) == Ok::<
                    Seq<char>,
                    Seq<char>,
                >(path),
    )
}

/// Whether the first `count` files can be written: each has a path, and no two share one.
pub open spec fn can_write(files: Seq<(Seq<char>, Seq<char>)>, count: int) -> bool {
    &&& 0 <= count <= files.len()
    &&& forall|i: int| 0 <= i < count ==> normalized((#[trigger] files[i]).0) is Ok
    &&& forall|i: int, j: int|
        0 <= i < j < count ==> normalized((#[trigger] files[i]).0) != normalized(
            (#[trigger] files[j]).0,
        )
}

impl BundleRun {
    /// The files: names, and source texts.
    pub closed spec fn files(&self) -> Seq<(Seq<char>, Seq<char>)> {
        pair_texts(self.files@)
    }

    /// What is asked for.
    pub closed spec fn opts(&self) -> BundleOptions {
        self.opts
    }

    /// The path of the file from which the bundle starts.
    pub closed spec fn entry_name(&self) -> Seq<char> {
        self.entry_name@
    }

    /// The packages that stay outside the bundle.
    pub closed spec fn external(&self) -> Seq<Seq<char>> {
        texts(self.external@)
    }

    /// How far the run is.
    pub closed spec fn stage(&self) -> StageView {
        self.stage@
    }

    /// Whether two runs are for the same project.
    pub open spec fn same_project(&self, other: &BundleRun) -> bool {
        &&& self.files() == other.files()
        &&& self.opts() == other.opts()
        &&& self.entry_name() == other.entry_name()
        &&& self.external() == other.external()
    }

    spec fn has_sorted_paths(&self) -> bool {
        match self.stage {
            BundleStage::Writing { written, .. } => written.wf(),
            _ => true,
        }
    }

    /// What a run keeps: the paths that are taken are those of the files up to the next one, no two
    /// of which share a path.
    pub closed spec fn wf(&self) -> bool {
        &&& self.has_sorted_paths()
        &&& self.stage() matches StageView::Writing { written, next, .. } ==> {
            &&& 0 < next
            &&& can_write(self.files(), next)
            &&& written == paths_of(self.files(), next)
        }
    }
}

/// Whether an event tells of the work that was asked for at a stage.
pub open spec fn fits(stage: StageView, event: BundleEvent) -> bool {
    match stage {
        StageView::Preparing => event is DirectoryReady || event is DirectoryFailed,
        StageView::Writing { .. } => event is FileWritten || event is ParentFailed
            || event is WriteFailed,
        StageView::Bundling { .. } => event is RuntimeFailed || event is BundlerFailed
            || event is Bundled,
        StageView::Done => false,
    }
}

/// Whether an action is the expected one; the bundler is told what the run's options ask for.
pub open spec fn is_action(action: BundleAction, expected: ActionView, run: &BundleRun) -> bool {
    match expected {
        ActionView::CreateDirectory => action is CreateDirectory,
        ActionView::WriteFile { path, source } => action matches BundleAction::WriteFile {
            path: p,
            source: s,
        } && p@ == path && s@ == source,
        ActionView::Bundle { cwd } => action matches BundleAction::Bundle(config)
            && is_bundle_config(config, cwd, run.entry_name(), &run.opts(), run.external()),
        ActionView::Finish(outcome) => action matches BundleAction::Finish(r) && outcome_view(r)
            == outcome,
    }
}

/// The end of a run that one message explains.
pub open spec fn refused(message: Seq<char>) -> (StageView, ActionView) {
    (StageView::Done, ActionView::Finish(Err(seq![message])))
}

/// What a run does once the first `next` files are written: the next file is written, unless its
/// name leads nowhere or its path is taken. After the last file the bundler runs, if the entry is
/// among the files.
pub open spec fn write_next(
    files: Seq<(Seq<char>, Seq<char>)>,
    entry_name: Seq<char>,
    cwd: Seq<char>,
    written: Set<Seq<char>>,
    next: int,
) -> (StageView, ActionView) {
    if next == files.len() {
        if written.contains(entry_name) {
            (StageView::Bundling { cwd }, ActionView::Bundle { cwd })
        } else {
            refused("bundle entry "@ + debug_text(entry_name) + " was not found in files"@)
        }
    } else {
        match normalized(files[next].0) {
            Err(message) => refused(message),
            Ok(path) => if written.contains(path) {
                refused("Duplicate module path after normalization: "@ + debug_text(files[next].0))
            } else {
                (
                    StageView::Writing { cwd, written: written.insert(path), next: next + 1 },
                    ActionView::WriteFile { path, source: files[next].1 },
                )
            },
        }
    }
}

/// The first chunk of code among what the bundler made.
pub open spec fn first_chunk(assets: Seq<BundleAsset>) -> Option<BundleChunk>
    decreases assets.len(),
{
    if assets.len() == 0 {
        None
    } else {
        match assets[0] {
            BundleAsset::Chunk(chunk) => Some(chunk),
            BundleAsset::Asset => first_chunk(assets.drop_first()),
        }
    }
}

/// The code with the preamble, if there is one.
pub open spec fn with_preamble(code: Seq<char>, preamble: Option<Seq<char>>) -> Seq<char> {
    match preamble {
        Some(preamble) if preamble.len() > 0 => injected(code, preamble),
        _ => code,
    }
}

/// The outcome of a run in which the bundler made `assets`: the code of the first chunk, with the
/// preamble; and, where one was asked for, its source map, with sources relative to `cwd`.
pub open spec fn bundle_outcome(
    assets: Seq<BundleAsset>,
    cwd: Seq<char>,
    preamble: Option<Seq<char>>,
    sourcemap: bool,
) -> BundleOutcomeView {
    match first_chunk(assets) {
        None => Err(seq!["Rolldown did not produce a JavaScript bundle"@]),
        Some(chunk) => {
            let code = with_preamble(chunk.code@, preamble);
            if !sourcemap {
                Ok((code, None))
            } else {
                match chunk.map {
                    None => Err(seq!["Rolldown did not produce a source map"@]),
                    Some(map) => match relativized_text(map@, cwd) {
                        Ok(text) => Ok((code, Some(text))),
                        Err(messages) => Err(messages),
                    },
                }
            }
        },
    }
}

/// Whether a chunk's source map lists the files of a project in `cwd` under their names, once its
/// sources are relative.
pub open spec fn map_keeps_names(chunk: BundleChunk, cwd: Seq<char>) -> bool {
    chunk.map matches Some(map) ==> (json_of(map@) matches Ok(json) ==> sources_keep_names(
        json,
        cwd,
    ))
}

/// What a run does after an event that fits its stage.
pub open spec fn after_event(run: &BundleRun, event: BundleEvent) -> (StageView, ActionView) {
    let files = run.files();
    match (run.stage(), event) {
        (_, BundleEvent::DirectoryReady(cwd)) => write_next(
            files,
            run.entry_name(),
            cwd@,
            Set::empty(),
            0,
        ),
        (_, BundleEvent::DirectoryFailed(why)) => refused(
            "Failed to create temp directory: "@ + why@,
        ),
        (
            StageView::Writing { cwd, written, next },
            BundleEvent::FileWritten,
        ) => write_next(files, run.entry_name(), cwd, written, next),
        (StageView::Writing { next, .. }, BundleEvent::ParentFailed(why)) => refused(
            "Failed to create directory for "@ + debug_text(files[next - 1].0) + ": "@ + why@,
        ),
        (StageView::Writing { next, .. }, BundleEvent::WriteFailed(why)) => refused(
            "Failed to write "@ + debug_text(files[next - 1].0) + ": "@ + why@,
        ),
        (_, BundleEvent::RuntimeFailed(why)) => refused(
            "Failed to initialize Tokio runtime: "@ + why@,
        ),
        (_, BundleEvent::BundlerFailed(messages)) => (
            StageView::Done,
            ActionView::Finish(Err(texts(messages@))),
        ),
        (StageView::Bundling { cwd }, BundleEvent::Bundled(assets)) => (
            StageView::Done,
            ActionView::Finish(
                bundle_outcome(
                    assets@,
                    cwd,
                    optional_text(run.opts().preamble),
                    run.opts().sourcemap,
                ),
            ),
        ),
        (stage, _) => (stage, ActionView::Finish(Err(Seq::empty()))),
    }
}

/// Why a project is refused before anything is done for it, if it is.
pub open spec fn refusal(files: Seq<(Seq<char>, Seq<char>)>, entry: Seq<char>) -> Option<
    Seq<Seq<char>>,
> {
    if files.len() == 0 {
        Some(seq!["bundle/2 requires at least one file"@])
    } else if entry.len() == 0 {
        Some(seq!["bundle/2 requires an :entry option"@])
    } else {
        match normalized(entry) {
            Err(message) => Some(seq![message]),
            Ok(_) => if project_errors(files).len() > 0 {
                Some(project_errors(files))
            } else {
                None
            },
        }
    }
}

/// One message on a file that could not be written.
fn write_failure(what: &str, name: &str, why: &str) -> (r: Vec<String>)
    ensures
        texts(r@) == seq![what@ + debug_text(name@) + ": "@ + why@],
{
    let mut message = what.to_owned();
    message.append(debug_quoted(name).as_str());
    message.append(": ");
    failure(message.as_str(), why)
}

/// The only message of a list.
fn single(message: &str) -> (r: Vec<String>)
    ensures
        texts(r@) == seq![message@],
{
    let mut r: Vec<String> = Vec::new();
    r.push(message.to_owned());
    assert(texts(r@) == seq![message@]);
    r
}

/// Whether this is what comes of a chunk: its code, whole, with the preamble where there is one;
/// and, exactly where one was asked for, its source map with the sources moved, or the reason why
/// there is none.
pub open spec fn is_finished(
    r: BundleOutcome,
    chunk: BundleChunk,
    cwd: Seq<char>,
    opts: &BundleOptions,
) -> bool {
    match r {
        Ok((code, map)) => {
            &&& opts.preamble is None ==> code@ == chunk.code@
            &&& opts.preamble matches Some(preamble) ==> code@ == (if preamble@.len() == 0 {
                chunk.code@
            } else {
                injected(chunk.code@, preamble@)
            })
            &&& map is Some <==> opts.sourcemap
            &&& map matches Some(text) ==> {
                &&& chunk.map matches Some(made)
                &&& json_of(made@) matches Ok(json)
                &&& is_moved_text(json, text@, cwd)
            }
        },
        Err(list) => {
            &&& opts.sourcemap
            &&& match chunk.map {
                None => hold_texts(list@, seq!["Rolldown did not produce a source map"@]),
                Some(made) => json_of(made@) matches Err(message) && hold_texts(
                    list@,
                    seq!["Failed to parse Rolldown source map: "@ + message],
                ),
            }
        },
    }
}

/// The code of a chunk with the preamble, and its source map where one was asked for.
fn finish_chunk(chunk: &BundleChunk, cwd: &str, opts: &BundleOptions) -> (r: BundleOutcome)
    ensures
        outcome_view(r) == {
            let code = with_preamble(chunk.code@, optional_text(opts.preamble));
            if !opts.sourcemap {
                Ok((code, None))
            } else {
                match chunk.map {
                    None => Err(seq!["Rolldown did not produce a source map"@]),
                    Some(map) => match relativized_text(map@, cwd@) {
                        Ok(text) => Ok((code, Some(text))),
                        Err(messages) => Err(messages),
                    },
                }
            }
        },
        opts.sourcemap ==> map_keeps_names(*chunk, cwd@),
        is_finished(r, *chunk, cwd@, opts),
{
    let mut code = chunk.code.clone();
    if let Some(preamble) = &opts.preamble {
        if !preamble.as_str().is_empty() {
            code = inject_preamble(code.as_str(), preamble.as_str());
        }
    }
    if !opts.sourcemap {
        return Ok((code, None));
    }
    match &chunk.map {
        None => Err(single("Rolldown did not produce a source map")),
        Some(map) => match relativize_sourcemap_sources(map.clone(), cwd) {
            Ok(text) => Ok((code, Some(text))),
            Err(messages) => Err(messages),
        },
    }
}

/// The outcome of a run in which the bundler made `assets`.
pub fn finish_bundle(assets: &Vec<BundleAsset>, cwd: &str, opts: &BundleOptions) -> (r:
    BundleOutcome)
    ensures
        outcome_view(r) == bundle_outcome(
            assets@,
            cwd@,
            optional_text(opts.preamble),
            opts.sourcemap,
        ),
        opts.sourcemap ==> (first_chunk(assets@) matches Some(chunk) ==> map_keeps_names(
            chunk,
            cwd@,
        )),
        forall|k: int|
            0 <= k < assets@.len() && (#[trigger] assets@[k]) is Chunk && (forall|j: int|
                0 <= j < k ==> (#[trigger] assets@[j]) is Asset) ==> is_finished(
                r,
                assets@[k]->Chunk_0,
                cwd@,
                opts,
            ),
        (forall|k: int| 0 <= k < assets@.len() ==> (#[trigger] assets@[k]) is Asset) ==> (
        r matches Err(list) && hold_texts(
            list@,
            seq!["Rolldown did not produce a JavaScript bundle"@],
        )),
{
    let mut i: usize = 0;
    assert(assets@.skip(0) == assets@);
    while i < assets.len()
        invariant
            i <= assets.len(),
            first_chunk(assets@) == first_chunk(assets@.skip(i as int)),
            forall|j: int| 0 <= j < i ==> (#[trigger] assets@[j]) is Asset,
        decreases assets.len() - i,
    {
        assert(assets@.skip(i as int).drop_first() == assets@.skip(i + 1));
        if let BundleAsset::Chunk(chunk) = &assets[i] {
            return finish_chunk(chunk, cwd, opts);
        }
        i = i + 1;
    }
    Err(single("Rolldown did not produce a JavaScript bundle"))
}

proof fn lemma_one_more_path(files: Seq<(Seq<char>, Seq<char>)>, count: int)
    requires
        0 <= count < files.len(),
        normalized(files[count].0) is Ok,
    ensures
        paths_of(files, count + 1) == paths_of(files, count).insert(
            normalized(files[count].0)->Ok_0,
        ),
{
    let path = normalized(files[count].0)->Ok_0;
    assert forall|p: Seq<char>| paths_of(files, count + 1).contains(p) <==> paths_of(
        files,
        count,
    ).insert(path).contains(p) by {
        if paths_of(files, count).contains(p) {
            let i = choose|i: int|
                0 <= i < count && normalized((#[trigger] files[i]).0) == Ok::<
                    Seq<char>,
                    Seq<char>,
                >(p);
            assert(normalized(files[i].0) == Ok::<Seq<char>, Seq<char>>(p));
        }
        if p == path {
            assert(normalized(files[count].0) == Ok::<Seq<char>, Seq<char>>(p));
        }
    }
    assert(paths_of(files, count + 1) == paths_of(files, count).insert(path));
}

/// What a run hands back for a list of messages.
fn finish_with(run: BundleRun, messages: Vec<String>) -> (r: (BundleRun, BundleAction))
    ensures
        r.0.stage@ == StageView::Done,
        r.0.files == run.files,
        r.0.opts == run.opts,
        r.0.entry_name == run.entry_name,
        r.0.external == run.external,
        r.1 matches BundleAction::Finish(Err(list)) && texts(list@) == texts(messages@),
{
    let mut run = run;
    run.stage = BundleStage::Done;
    (run, BundleAction::Finish(Err(messages)))
}

/// Goes on once the first `next` files of `run` are written.
fn go_on(run: BundleRun, cwd: String, written: SortedStrings, next: usize) -> (r: (
    BundleRun,
    BundleAction,
))
    requires
        written.wf(),
        can_write(pair_texts(run.files@), next as int),
        written@.to_set() == paths_of(pair_texts(run.files@), next as int),
    ensures
        r.0.wf(),
        r.0.files == run.files,
        r.0.opts == run.opts,
        r.0.entry_name == run.entry_name,
        r.0.external == run.external,
        ({
            let expected = write_next(
                pair_texts(run.files@),
                run.entry_name@,
                cwd@,
                written@.to_set(),
                next as int,
            );
            &&& r.0.stage@ == expected.0
            &&& is_action(r.1, expected.1, &r.0)
        }),
{
    let mut run = run;
    let mut written = written;
    if next == run.files.len() {
        if !written.contains(run.entry_name.as_str()) {
            let mut message = "bundle entry ".to_owned();
            message.append(debug_quoted(run.entry_name.as_str()).as_str());
            let messages = failure(message.as_str(), " was not found in files");
            return finish_with(run, messages);
        }
        let config = build_bundle_options(
            cwd.as_str(),
            run.entry_name.as_str(),
            &run.opts,
            &run.external,
        );
        run.stage = BundleStage::Bundling { cwd };
        return (run, BundleAction::Bundle(config));
    }
    match normalize_virtual_path(run.files[next].0.as_str()) {
        Err(message) => {
            let messages = single(message.as_str());
            finish_with(run, messages)
        },
        Ok(path) => {
            if !written.insert(path.clone()) {
                let messages = failure(
                    "Duplicate module path after normalization: ",
                    debug_quoted(run.files[next].0.as_str()).as_str(),
                );
                return finish_with(run, messages);
            }
            proof {
                lemma_one_more_path(pair_texts(run.files@), next as int);
            }
            let source = run.files[next].1.clone();
            run.stage = BundleStage::Writing { cwd, written, next: next + 1 };
            (run, BundleAction::WriteFile { path, source })
        },
    }
}

impl BundleRun {
    /// Begins a run. A project that cannot be bundled is refused at once.
    pub fn start(files: Vec<(String, String)>, opts: BundleOptions) -> (r: (
        BundleRun,
        BundleAction,
    ))
        ensures
            r.0.wf(),
            r.0.files() == pair_texts(files@),
            r.0.opts() == opts,
            match refusal(pair_texts(files@), opts.entry@) {
                Some(messages) => {
                    &&& r.0.stage() == StageView::Done
                    &&& is_action(r.1, ActionView::Finish(Err(messages)), &r.0)
                },
                None => {
                    &&& r.0.stage() == StageView::Preparing
                    &&& is_action(r.1, ActionView::CreateDirectory, &r.0)
                    &&& normalized(opts.entry@) == Ok::<Seq<char>, Seq<char>>(r.0.entry_name())
                    &&& ascending(r.0.external())
                    &&& r.0.external().to_set() == project_packages(pair_texts(files@))
                },
            },
    {
        let mut run = BundleRun {
            files,
            opts,
            entry_name: String::new(),
            external: Vec::new(),
            stage: BundleStage::Done,
        };
        if run.files.len() == 0 {
            return finish_with(run, single("bundle/2 requires at least one file"));
        }
        if run.opts.entry.as_str().is_empty() {
            return finish_with(run, single("bundle/2 requires an :entry option"));
        }
        match normalize_virtual_path(run.opts.entry.as_str()) {
            Ok(entry_name) => {
                run.entry_name = entry_name;
            },
            Err(message) => {
                return finish_with(run, single(message.as_str()));
            },
        }
        match collect_external_specifiers(&run.files) {
            Ok(external) => {
                run.external = external;
                run.stage = BundleStage::Preparing;
                (run, BundleAction::CreateDirectory)
            },
            Err(messages) => finish_with(run, messages),
        }
    }

    /// Goes on after the work that was asked for last.
    pub fn step(self, event: BundleEvent) -> (r: (BundleRun, BundleAction))
        requires
            self.wf(),
            fits(self.stage(), event),
        ensures
            r.0.wf(),
            r.0.same_project(&self),
            r.0.stage() == after_event(&self, event).0,
            is_action(r.1, after_event(&self, event).1, &r.0),
    {
        let BundleRun { files, opts, entry_name, external, stage } = self;
        let run = BundleRun { files, opts, entry_name, external, stage: BundleStage::Done };
        match (stage, event) {
            (BundleStage::Preparing, BundleEvent::DirectoryReady(cwd)) => {
                let written = SortedStrings::new();
                assert(written@.to_set() == Set::<Seq<char>>::empty());
                assert(paths_of(pair_texts(run.files@), 0) == Set::<Seq<char>>::empty());
                go_on(run, cwd, written, 0)
            },
            (BundleStage::Preparing, BundleEvent::DirectoryFailed(why)) => finish_with(
                run,
                failure("Failed to create temp directory: ", why.as_str()),
            ),
            (
                BundleStage::Writing { cwd, written, next },
                BundleEvent::FileWritten,
            ) => go_on(run, cwd, written, next),
            (BundleStage::Writing { next, .. }, BundleEvent::ParentFailed(why)) => {
                let messages = write_failure(
                    "Failed to create directory for ",
                    run.files[next - 1].0.as_str(),
                    why.as_str(),
                );
                finish_with(run, messages)
            },
            (BundleStage::Writing { next, .. }, BundleEvent::WriteFailed(why)) => {
                let messages = write_failure(
                    "Failed to write ",
                    run.files[next - 1].0.as_str(),
                    why.as_str(),
                );
                finish_with(run, messages)
            },
            (BundleStage::Bundling { .. }, BundleEvent::RuntimeFailed(why)) => finish_with(
                run,
                failure("Failed to initialize Tokio runtime: ", why.as_str()),
            ),
            (
                BundleStage::Bundling { .. },
                BundleEvent::BundlerFailed(messages),
            ) => finish_with(run, messages),
            (BundleStage::Bundling { cwd }, BundleEvent::Bundled(assets)) => {
                let outcome = finish_bundle(&assets, cwd.as_str(), &run.opts);
                (run, BundleAction::Finish(outcome))
            },
            _ => vstd::pervasive::unreached(),
        }
    }
}

/// What the caller of a bundle gets: the code alone, or with its source map, or the messages.
pub open spec fn output_of_bundle(outcome: BundleOutcomeView) -> TransformOutputView {
    match outcome {
        Ok((code, Some(sourcemap))) => TransformOutputView::CodeWithSourcemap { code, sourcemap },
        Ok((code, None)) => TransformOutputView::Code(code),
        Err(messages) => TransformOutputView::Errors(messages),
    }
}

/// What the caller of a bundle gets.
pub fn bundle_output(outcome: BundleOutcome) -> (r: TransformOutput)
    ensures
        r@ == output_of_bundle(outcome_view(outcome)),
        match outcome {
            Ok((code, Some(sourcemap))) => r == TransformOutput::CodeWithSourcemap(
                (CodeWithSourcemap { code, sourcemap }),
            ),
            Ok((code, None)) => r == TransformOutput::Code(code),
            Err(messages) => r == TransformOutput::Errors(messages),
        },
{
    match outcome {
        Ok((code, Some(sourcemap))) => TransformOutput::CodeWithSourcemap(
            CodeWithSourcemap { code, sourcemap },
        ),
        Ok((code, None)) => TransformOutput::Code(code),
        Err(messages) => TransformOutput::Errors(messages),
    }
}

/// How far a run is once the project's directory is there and `count` files have been reported as
/// written, and what it asks for then.
pub open spec fn after_writes(
    files: Seq<(Seq<char>, Seq<char>)>,
    entry_name: Seq<char>,
    cwd: Seq<char>,
    count: nat,
) -> (StageView, ActionView)
    decreases count,
{
    if count == 0 {
        write_next(files, entry_name, cwd, Set::empty(), 0)
    } else {
        let before = after_writes(files, entry_name, cwd, (count - 1) as nat);
        match before.0 {
            StageView::Writing { cwd, written, next } => write_next(
                files,
                entry_name,
                cwd,
                written,
                next,
            ),
            _ => before,
        }
    }
}

/// A run goes through these stages, as long as the work that it asks for succeeds.
pub proof fn law_steps_follow_the_writes(
    run: &BundleRun,
    event: BundleEvent,
    cwd: Seq<char>,
    count: nat,
)
    requires
        fits(run.stage(), event),
        event is FileWritten,
        run.stage() == after_writes(run.files(), run.entry_name(), cwd, count).0,
    ensures
        after_event(run, event) == after_writes(
            run.files(),
            run.entry_name(),
            cwd,
            count + 1,
        ),
{
}

/// The files are written one by one, in their order: each that can be written is written under its
/// path, with its text.
pub proof fn law_files_are_written_in_order(
    files: Seq<(Seq<char>, Seq<char>)>,
    entry_name: Seq<char>,
    cwd: Seq<char>,
    count: nat,
)
    requires
        can_write(files, count as int + 1),
    ensures
        after_writes(files, entry_name, cwd, count) == (
            StageView::Writing {
                cwd,
                written: paths_of(files, count as int + 1),
                next: count as int + 1,
            },
            ActionView::WriteFile {
                path: normalized(files[count as int].0)->Ok_0,
                source: files[count as int].1,
            },
        ),
    decreases count,
{
    let c = count as int;
    lemma_one_more_path(files, c);
    if count == 0 {
        assert(paths_of(files, 0) == Set::<Seq<char>>::empty());
    } else {
        law_files_are_written_in_order(files, entry_name, cwd, (count - 1) as nat);
    }
    let path = normalized(files[c].0)->Ok_0;
    if paths_of(files, c).contains(path) {
        let i = choose|i: int|
            0 <= i < c && normalized((#[trigger] files[i]).0) == Ok::<Seq<char>, Seq<char>>(path);
        assert(normalized(files[i].0) != normalized(files[c].0));
    }
}

proof fn lemma_after_writes(
    files: Seq<(Seq<char>, Seq<char>)>,
    entry_name: Seq<char>,
    cwd: Seq<char>,
    count: nat,
)
    requires
        can_write(files, count as int),
    ensures
        after_writes(files, entry_name, cwd, count) == write_next(
            files,
            entry_name,
            cwd,
            paths_of(files, count as int),
            count as int,
        ),
{
    if count == 0 {
        assert(paths_of(files, 0) == Set::<Seq<char>>::empty());
    } else {
        law_files_are_written_in_order(files, entry_name, cwd, (count - 1) as nat);
    }
}

/// Once all files of a project are written, the bundler runs if the entry is the path of one of
/// them; otherwise the entry is refused.
pub proof fn law_bundler_runs_after_all_files(
    files: Seq<(Seq<char>, Seq<char>)>,
    entry_name: Seq<char>,
    cwd: Seq<char>,
)
    requires
        can_write(files, files.len() as int),
    ensures
        after_writes(files, entry_name, cwd, files.len()) == (if exists|i: int|
            0 <= i < files.len() && normalized((#[trigger] files[i]).0) == Ok::<
                Seq<char>,
                Seq<char>,
            >(entry_name) {
            (StageView::Bundling { cwd }, ActionView::Bundle { cwd })
        } else {
            refused("bundle entry "@ + debug_text(entry_name) + " was not found in files"@)
        }),
{
    lemma_after_writes(files, entry_name, cwd, files.len());
}

/// The first file whose name leads nowhere ends the run, after those before it were written.
pub proof fn law_first_invalid_name_is_reported(
    files: Seq<(Seq<char>, Seq<char>)>,
    entry_name: Seq<char>,
    cwd: Seq<char>,
    count: nat,
)
    requires
        count < files.len(),
        can_write(files, count as int),
        normalized(files[count as int].0) is Err,
    ensures
        after_writes(files, entry_name, cwd, count) == refused(
            invalid_filename(files[count as int].0),
        ),
{
    lemma_after_writes(files, entry_name, cwd, count);
}

/// The first file whose path is taken ends the run, after those before it were written.
pub proof fn law_first_taken_path_is_reported(
    files: Seq<(Seq<char>, Seq<char>)>,
    entry_name: Seq<char>,
    cwd: Seq<char>,
    i: int,
    count: nat,
)
    requires
        0 <= i < count < files.len(),
        can_write(files, count as int),
        normalized(files[count as int].0) == normalized(files[i].0),
    ensures
        after_writes(files, entry_name, cwd, count) == refused(
            "Duplicate module path after normalization: "@ + debug_text(files[count as int].0),
        ),
{
    lemma_after_writes(files, entry_name, cwd, count);
    assert(paths_of(files, count as int).contains(normalized(files[i].0)->Ok_0));
}

/// The bundler runs only when every file has been written, each under a path of its own, and the
/// entry is the path of one of them.
pub proof fn law_bundling_needs_every_file(run: &BundleRun, event: BundleEvent)
    requires
        run.wf(),
        fits(run.stage(), event),
        run.files().len() > 0,
        after_event(run, event).0 is Bundling,
    ensures
        event is FileWritten,
        can_write(run.files(), run.files().len() as int),
        exists|i: int|
            0 <= i < run.files().len() && normalized((#[trigger] run.files()[i]).0)
                == Ok::<Seq<char>, Seq<char>>(run.entry_name()),
{
}

/// No file is written outside the project: the path that a run asks for is normalized, so every
/// part of it is a name.
pub proof fn law_written_paths_are_normalized(run: &BundleRun, event: BundleEvent)
    requires
        fits(run.stage(), event),
        after_event(run, event).1 is WriteFile,
    ensures
        ({
            let path = after_event(run, event).1->path;
            &&& normalized(path) == Ok::<Seq<char>, Seq<char>>(path)
            &&& forall|i: int|
                0 <= i < path_parts(path).len() ==> is_name(#[trigger] path_parts(path)[i])
        }),
{
    let files = run.files();
    let next = match (run.stage(), event) {
        (StageView::Writing { next, .. }, BundleEvent::FileWritten) => next,
        _ => 0,
    };
    law_normalization_is_idempotent(files[next].0);
    law_parts_are_names(after_event(run, event).1->path);
}

/// A bundle comes with a source map exactly when one was asked for.
pub proof fn law_map_comes_when_asked_for(
    assets: Seq<BundleAsset>,
    cwd: Seq<char>,
    preamble: Option<Seq<char>>,
    sourcemap: bool,
)
    ensures
        bundle_outcome(assets, cwd, preamble, sourcemap) matches Ok((_, map)) ==> (map is Some
            <==> sourcemap),
{
}

/// How many steps a run can still make.
pub open spec fn steps_left(stage: StageView, files: nat) -> int {
    match stage {
        StageView::Preparing => files as int + 2,
        StageView::Writing { next, .. } => files - next + 2,
        StageView::Bundling { .. } => 1,
        StageView::Done => 0,
    }
}

/// Every run ends: each step leaves fewer steps to make.
pub proof fn law_runs_end(run: &BundleRun, event: BundleEvent)
    requires
        run.wf(),
        fits(run.stage(), event),
    ensures
        0 <= steps_left(after_event(run, event).0, run.files().len()) < steps_left(
            run.stage(),
            run.files().len(),
        ),
        after_event(run, event).0 is Done <==> after_event(run, event).1 is Finish,
{
}

/// The characters of an outcome are all of its own.
pub proof fn law_outcomes_are_seen_whole(r: BundleOutcome)
    ensures
        match r {
            Ok((code, map)) => {
                &&& outcome_view(r) is Ok
                &&& outcome_view(r)->Ok_0.0 == code@
                &&& map is None <==> outcome_view(r)->Ok_0.1 is None
                &&& map matches Some(text) ==> outcome_view(r)->Ok_0.1 == Some(text@)
            },
            Err(list) => outcome_view(r) matches Err(messages) && hold_texts(list@, messages),
        },
{
}

/// The first chunk of code is handed back: its code, whole, with the preamble where there is one;
/// and its source map exactly where one was asked for, with the sources moved.
pub proof fn law_first_chunk_is_handed_back(
    assets: Seq<BundleAsset>,
    k: int,
    cwd: Seq<char>,
    preamble: Option<Seq<char>>,
    sourcemap: bool,
)
    requires
        0 <= k < assets.len(),
        assets[k] is Chunk,
        forall|j: int| 0 <= j < k ==> (#[trigger] assets[j]) is Asset,
        map_keeps_names(assets[k]->Chunk_0, cwd),
    ensures
        ({
            let chunk = assets[k]->Chunk_0;
            let code = match preamble {
                Some(text) => if text.len() == 0 {
                    chunk.code@
                } else {
                    injected(chunk.code@, text)
                },
                None => chunk.code@,
            };
            let outcome = bundle_outcome(assets, cwd, preamble, sourcemap);
            &&& !sourcemap ==> outcome == Ok::<(Seq<char>, Option<Seq<char>>), Seq<Seq<char>>>(
                (code, None),
            )
            &&& sourcemap && chunk.map is None ==> outcome == Err::<
                (Seq<char>, Option<Seq<char>>),
                Seq<Seq<char>>,
            >(seq!["Rolldown did not produce a source map"@])
            &&& sourcemap ==> (chunk.map matches Some(map) ==> match json_of(map@) {
                Ok(json) => outcome matches Ok((c, Some(text))) && c == code && is_moved_text(
                    json,
                    text,
                    cwd,
                ),
                Err(message) => outcome == Err::<(Seq<char>, Option<Seq<char>>), Seq<Seq<char>>>(
                    seq!["Failed to parse Rolldown source map: "@ + message],
                ),
            })
        }),
{
    lemma_first_chunk(assets, k);
    if let Some(map) = assets[k]->Chunk_0.map {
        law_maps_are_written_again(map@, cwd);
    }
}

proof fn lemma_first_chunk(assets: Seq<BundleAsset>, k: int)
    requires
        0 <= k < assets.len(),
        assets[k] is Chunk,
        forall|j: int| 0 <= j < k ==> (#[trigger] assets[j]) is Asset,
    ensures
        first_chunk(assets) == Some(assets[k]->Chunk_0),
    decreases k,
{
    if k > 0 {
        let rest = assets.drop_first();
        assert(assets[0] is Asset);
        assert forall|j: int| 0 <= j < k - 1 implies (#[trigger] rest[j]) is Asset by {
            assert(assets[j + 1] is Asset);
        }
        lemma_first_chunk(rest, k - 1);
    }
}

/// Where the bundler made no chunk of code, that is the message.
pub proof fn law_missing_code_is_reported(
    assets: Seq<BundleAsset>,
    cwd: Seq<char>,
    preamble: Option<Seq<char>>,
    sourcemap: bool,
)
    requires
        forall|k: int| 0 <= k < assets.len() ==> (#[trigger] assets[k]) is Asset,
    ensures
        bundle_outcome(assets, cwd, preamble, sourcemap) == Err::<
            (Seq<char>, Option<Seq<char>>),
            Seq<Seq<char>>,
        >(seq!["Rolldown did not produce a JavaScript bundle"@]),
    decreases assets.len(),
{
    if assets.len() > 0 {
        let rest = assets.drop_first();
        assert(assets[0] is Asset);
        assert forall|k: int| 0 <= k < rest.len() implies (#[trigger] rest[k]) is Asset by {
            assert(assets[k + 1] is Asset);
        }
        law_missing_code_is_reported(rest, cwd, preamble, sourcemap);
    }
}

/// Work that fails ends the run, with a message that tells what failed and why, and of a file also
/// which; the messages of the bundler are handed on as they are.
pub proof fn law_failures_are_reported(run: &BundleRun, event: BundleEvent)
    requires
        fits(run.stage(), event),
    ensures
        event matches BundleEvent::DirectoryFailed(why) ==> after_event(run, event) == (
            StageView::Done,
            ActionView::Finish(Err(seq!["Failed to create temp directory: "@ + why@])),
        ),
        event matches BundleEvent::ParentFailed(why) ==> (run.stage() matches StageView::Writing {
            next,
            ..
        } && after_event(run, event) == (
            StageView::Done,
            ActionView::Finish(
                Err(
                    seq![
                        "Failed to create directory for "@ + debug_text(run.files()[next - 1].0)
                            + ": "@ + why@,
                    ],
                ),
            ),
        )),
        event matches BundleEvent::WriteFailed(why) ==> (run.stage() matches StageView::Writing {
            next,
            ..
        } && after_event(run, event) == (
            StageView::Done,
            ActionView::Finish(
                Err(
                    seq![
                        "Failed to write "@ + debug_text(run.files()[next - 1].0) + ": "@ + why@,
                    ],
                ),
            ),
        )),
        event matches BundleEvent::RuntimeFailed(why) ==> after_event(run, event) == (
            StageView::Done,
            ActionView::Finish(Err(seq!["Failed to initialize Tokio runtime: "@ + why@])),
        ),
        event is BundlerFailed ==> after_event(run, event).0 is Done,
        event matches BundleEvent::BundlerFailed(list) ==> (after_event(
            run,
            event,
        ).1 matches ActionView::Finish(Err(messages)) && hold_texts(list@, messages)),
{
}

/// What the bundler made ends the run, with what is handed back of it.
pub proof fn law_bundles_end_the_run(run: &BundleRun, event: BundleEvent)
    requires
        fits(run.stage(), event),
        event is Bundled,
    ensures
        run.stage() matches StageView::Bundling { cwd } && after_event(run, event) == (
            StageView::Done,
            ActionView::Finish(
                bundle_outcome(
                    event->Bundled_0@,
                    cwd,
                    optional_text(run.opts().preamble),
                    run.opts().sourcemap,
                ),
            ),
        ),
{
}

/// Once the directory is there, the run begins with the first file.
pub proof fn law_writing_begins_in_the_directory(run: &BundleRun, event: BundleEvent)
    requires
        fits(run.stage(), event),
        event is DirectoryReady,
    ensures
        run.stage() is Preparing,
        after_event(run, event) == after_writes(
            run.files(),
            run.entry_name(),
            event->DirectoryReady_0@,
            0,
        ),
{
}

/// A stage waits for the outcome of the work that was asked for at it, good or bad, and for nothing
/// else.
pub proof fn law_stages_wait_for_their_work(
    event: BundleEvent,
    cwd: Seq<char>,
    written: Set<Seq<char>>,
    next: int,
)
    ensures
        fits(StageView::Preparing, event) <==> event is DirectoryReady || event is DirectoryFailed,
        fits((StageView::Writing { cwd, written, next }), event) <==> event is FileWritten
            || event is ParentFailed || event is WriteFailed,
        fits((StageView::Bundling { cwd }), event) <==> event is RuntimeFailed
            || event is BundlerFailed || event is Bundled,
        !fits(StageView::Done, event),
{
}

/// An action carries what it is for: the path and the whole text of the file, the outcome, or what
/// the bundler is told.
pub proof fn law_actions_carry_their_work(
    action: BundleAction,
    expected: ActionView,
    run: &BundleRun,
)
    requires
        is_action(action, expected, run),
    ensures
        match expected {
            ActionView::CreateDirectory => action is CreateDirectory,
            ActionView::WriteFile { path, source } => action is WriteFile
                && action->WriteFile_path@ == path && action->WriteFile_source@ == source,
            ActionView::Bundle { cwd } => action is Bundle && is_bundle_config(
                action->Bundle_0,
                cwd,
                run.entry_name(),
                &run.opts(),
                run.external(),
            ),
            ActionView::Finish(outcome) => action is Finish && outcome_view(action->Finish_0)
                == outcome,
        },
{
}

/// Files can be written where each has a path and no two share one; their paths are those that they
/// are normalized to.
pub proof fn law_files_need_paths_of_their_own(
    files: Seq<(Seq<char>, Seq<char>)>,
    count: int,
    path: Seq<char>,
)
    ensures
        can_write(files, count) <==> {
            &&& 0 <= count <= files.len()
            &&& forall|i: int| 0 <= i < count ==> normalized((#[trigger] files[i]).0) is Ok
            &&& forall|i: int, j: int|
                0 <= i < j < count ==> normalized((#[trigger] files[i]).0) != normalized(
                    (#[trigger] files[j]).0,
                )
        },
        paths_of(files, count).contains(path) <==> exists|i: int|
            0 <= i < count && normalized((#[trigger] files[i]).0) == Ok::<Seq<char>, Seq<char>>(
                path,
            ),
{
}

/// A project is refused before anything is done for it where it has no files, where no entry is
/// named, where the entry leads nowhere, and where a file has syntax errors; and nowhere else.
pub proof fn law_projects_are_refused_early(
    files: Seq<(Seq<char>, Seq<char>)>,
    entry: Seq<char>,
)
    ensures
        files.len() == 0 ==> refusal(files, entry) == Some(
            seq!["bundle/2 requires at least one file"@],
        ),
        files.len() > 0 && entry.len() == 0 ==> refusal(files, entry) == Some(
            seq!["bundle/2 requires an :entry option"@],
        ),
        files.len() > 0 && entry.len() > 0 && path_parts(entry).len() == 0 ==> refusal(
            files,
            entry,
        ) == Some(seq!["Invalid virtual filename: "@ + debug_text(entry)]),
        files.len() > 0 && entry.len() > 0 && path_parts(entry).len() > 0 ==> {
            &&& project_errors(files).len() == 0 ==> refusal(files, entry) is None
            &&& project_errors(files).len() > 0 ==> refusal(files, entry) == Some(
                project_errors(files),
            )
        },
{
}

/// A refusal ends the run, with its message.
pub proof fn law_refusals_end_the_run(message: Seq<char>)
    ensures
        refused(message) == (StageView::Done, ActionView::Finish(Err(seq![message]))),
{
}

/// The caller of a bundle gets what came of it, whole.
pub proof fn law_bundles_are_handed_on(outcome: BundleOutcomeView)
    ensures
        match output_of_bundle(outcome) {
            TransformOutputView::Code(code) => outcome matches Ok((c, None)) && c == code,
            TransformOutputView::CodeWithSourcemap { code, sourcemap } => outcome matches Ok(
                (c, Some(map)),
            ) && c == code && map == sourcemap,
            TransformOutputView::Errors(messages) => outcome matches Err(list) && list == messages,
            TransformOutputView::Crashed => false,
        },
{
}

} // verus!
