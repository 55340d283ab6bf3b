//! The assembly driver: the state machine that drains the include worklist,
//! registers each file, feeds parse results into the inclusion graph and the
//! version gate, and runs the post-loop validation (entry-point count and
//! feature-pragma consistency).
//!
//! Reading a file from disk and the single-file grammar are the caller's:
//! the caller pulls the next path with [`AssemblyDriver::next_file`], reads
//! and registers the file, parses it, and hands the result back as plain
//! values. Per-file failures (unreadable file, syntax error, bad include,
//! version mismatch) are fail-fast: the first one ends the run at once.
//! The cross-file checks run only once the worklist is drained, and the
//! pragma check collects every violation rather than stopping at the first.

use vstd::prelude::*;

use crate::file_library::{FileEntry, FileLibrary};
use crate::file_stack::{spec_schedule, FileStack};
use crate::includes_graph::{spec_add_edge, spec_add_node, GraphNode, IncludesGraph};
use crate::report::{FileId, Report, ReportCollection};
use crate::version::{check_number_version, version_compatible, Version};

verus! {

/// What the external single-file parse reports about one file, as plain
/// values: whether it declares a program entry point, the include paths it
/// names in order, its optional minimum compiler version, and the two
/// custom-gates feature flags. The file's definitions themselves stay with
/// the caller, keyed by the file's identifier.
pub struct ParsedFile {
    pub has_main: bool,
    pub includes: Vec<String>,
    pub compiler_version: Option<Version>,
    pub declares_feature: bool,
    pub uses_feature: bool,
}

/// Where a run stands.
pub enum Phase {
    /// Ready to pull the next path from the worklist.
    Fetching,
    /// Waiting for the caller to read the file scheduled under `path`.
    Reading { path: String },
    /// Waiting for the caller to parse registered file `file_id`, scheduled
    /// under `path`.
    Parsing { path: String, file_id: FileId },
    /// The worklist is drained; ready for the post-loop validation.
    Validating,
    /// A fatal diagnostic ended the run.
    Failed,
}

/// Scheduling and edge-recording of one file's include references, in
/// discovery order. Each reference is scheduled first and then recorded as a
/// graph edge; an invalid reference stops the run there, after earlier
/// references took effect.
pub open spec fn spec_apply_includes(
    queue: Seq<String>,
    nodes: Seq<GraphNode>,
    edges: Seq<(usize, usize)>,
    parent: String,
    includes: Seq<String>,
) -> (Seq<String>, Seq<GraphNode>, Seq<(usize, usize)>, Option<Report>)
    decreases includes.len(),
{
    if includes.len() == 0 {
        (queue, nodes, edges, None)
    } else {
        let queue1 = spec_schedule(queue, includes[0]);
        match spec_add_edge(nodes, edges, parent, includes[0]) {
            Err(rep) => (queue1, nodes, edges, Some(rep)),
            Ok(state) => spec_apply_includes(
                queue1,
                state.0,
                state.1,
                parent,
                includes.drop_first(),
            ),
        }
    }
}

/// Everything a run's outcome can depend on, as the contracts see it.
#[verifier::ext_equal]
pub ghost struct DriverState {
    pub files: Seq<FileEntry>,
    pub queue: Seq<String>,
    pub cursor: int,
    pub nodes: Seq<GraphNode>,
    pub edges: Seq<(usize, usize)>,
    pub main_files: Seq<FileId>,
    pub definition_files: Seq<FileId>,
    pub warnings: Seq<Report>,
    pub compiler_version: Version,
    pub phase: Phase,
}

/// One observation the driver reacts to while draining the worklist.
pub enum DriverEvent {
    /// The caller asks which file to process next.
    NextFile,
    /// The awaited file was read: its display path and source text.
    FileRead { path_text: String, source: String },
    /// The awaited file was parsed.
    FileParsed { parsed: ParsedFile },
}

/// How one event moves the driver's state, restating the contracts of
/// [`AssemblyDriver::next_file`], [`AssemblyDriver::register_file`] and
/// [`AssemblyDriver::apply_parsed`] as one function: the next state depends
/// on nothing but the state and the event.
pub open spec fn spec_step(s: DriverState, e: DriverEvent) -> DriverState {
    match e {
        DriverEvent::NextFile => (match s.phase {
            Phase::Fetching => {
                if s.cursor < s.queue.len() {
                    DriverState {
                        cursor: s.cursor + 1,
                        phase: Phase::Reading { path: s.queue[s.cursor] },
                        ..s
                    }
                } else {
                    DriverState { phase: Phase::Validating, ..s }
                }
            },
            _ => s,
        }),
        DriverEvent::FileRead { path_text, source } => (match s.phase {
            Phase::Reading { path } => DriverState {
                files: s.files.push(FileEntry { path: path_text, source }),
                phase: Phase::Parsing { path, file_id: s.files.len() as usize },
                ..s
            },
            _ => s,
        }),
        DriverEvent::FileParsed { parsed } => (match s.phase {
            Phase::Parsing { path, file_id } => {
                let st = spec_apply_includes(
                    s.queue,
                    spec_add_node(s.nodes, path, parsed.declares_feature, parsed.uses_feature),
                    s.edges,
                    path,
                    parsed.includes@,
                );
                let base = DriverState {
                    queue: st.0,
                    nodes: st.1,
                    edges: st.2,
                    main_files: if parsed.has_main {
                        s.main_files.push(file_id)
                    } else {
                        s.main_files
                    },
                    definition_files: s.definition_files.push(file_id),
                    ..s
                };
                match st.3 {
                    Some(rep) => DriverState { phase: Phase::Failed, ..base },
                    None => (match parsed.compiler_version {
                        Some(req) => {
                            if version_compatible(req, s.compiler_version) {
                                DriverState { phase: Phase::Fetching, ..base }
                            } else {
                                DriverState { phase: Phase::Failed, ..base }
                            }
                        },
                        None => DriverState {
                            phase: Phase::Fetching,
                            warnings: s.warnings.push(
                                Report::NoCompilerVersionWarning {
                                    path: s.files[file_id as int].path,
                                    version: s.compiler_version,
                                },
                            ),
                            ..base
                        },
                    }),
                }
            },
            _ => s,
        }),
    }
}

/// The state a run reaches from `s` after reacting to `events` in order.
pub open spec fn spec_run(s: DriverState, events: Seq<DriverEvent>) -> DriverState
    decreases events.len(),
{
    if events.len() == 0 {
        s
    } else {
        spec_run(spec_step(s, events[0]), events.drop_first())
    }
}

/// The orchestrator of one run. All evolving state of a run lives here by
/// exclusive ownership: independent runs cannot leak into each other.
pub struct AssemblyDriver {
    pub registry: FileLibrary,
    pub worklist: FileStack,
    pub graph: IncludesGraph,
    pub main_files: Vec<FileId>,
    pub definition_files: Vec<FileId>,
    pub warnings: Vec<Report>,
    pub compiler_version: Version,
    pub phase: Phase,
}

impl AssemblyDriver {
    /// The components are well-formed, a file awaiting its parse is
    /// registered, and every file identifier in the entry-point candidates
    /// and the definitions accumulator has a registry entry.
    pub open spec fn wf(self) -> bool {
        &&& self.worklist.wf()
        &&& self.graph.wf()
        &&& self.phase matches Phase::Parsing { path, file_id } ==> file_id
            < self.registry.entries().len()
        &&& forall|i: int|
            0 <= i < self.main_files@.len() ==> (#[trigger] self.main_files@[i])
                < self.registry.entries().len()
        &&& forall|i: int|
            0 <= i < self.definition_files@.len() ==> (#[trigger] self.definition_files@[i])
                < self.registry.entries().len()
    }

    /// The driver's state as the contracts see it.
    pub open spec fn model(self) -> DriverState {
        DriverState {
            files: self.registry.entries(),
            queue: self.worklist.all_paths(),
            cursor: self.worklist.cursor(),
            nodes: self.graph.nodes@,
            edges: self.graph.edges@,
            main_files: self.main_files@,
            definition_files: self.definition_files@,
            warnings: self.warnings@,
            compiler_version: self.compiler_version,
            phase: self.phase,
        }
    }

    /// A fresh run for the given entry file and running compiler version.
    pub fn new(entry_path: String, compiler_version: Version) -> (d: Self)
        ensures
            d.wf(),
            d.registry.entries() =~= Seq::<FileEntry>::empty(),
            d.worklist.all_paths() =~= seq![entry_path],
            d.worklist.cursor() == 0,
            d.graph.nodes@ =~= Seq::<GraphNode>::empty(),
            d.graph.edges@ =~= Seq::<(usize, usize)>::empty(),
            d.main_files@ =~= Seq::<FileId>::empty(),
            d.definition_files@ =~= Seq::<FileId>::empty(),
            d.warnings@ =~= Seq::<Report>::empty(),
            d.compiler_version == compiler_version,
            d.phase is Fetching,
    {
        AssemblyDriver {
            registry: FileLibrary::new(),
            worklist: FileStack::new(entry_path),
            graph: IncludesGraph::new(),
            main_files: Vec::new(),
            definition_files: Vec::new(),
            warnings: Vec::new(),
            compiler_version,
            phase: Phase::Fetching,
        }
    }

    /// Pulls the next file to process in discovery order, or reports the
    /// worklist drained, after which only the post-loop validation is left.
    pub fn next_file(&mut self) -> (r: Option<String>)
        requires
            old(self).wf(),
            old(self).phase is Fetching,
        ensures
            final(self).wf(),
            final(self).registry == old(self).registry,
            final(self).graph == old(self).graph,
            final(self).main_files == old(self).main_files,
            final(self).definition_files == old(self).definition_files,
            final(self).warnings == old(self).warnings,
            final(self).compiler_version == old(self).compiler_version,
            final(self).worklist.all_paths() == old(self).worklist.all_paths(),
            (match r {
                Some(p) => {
                    &&& old(self).worklist.pending().len() > 0
                    &&& p == old(self).worklist.pending()[0]
                    &&& final(self).worklist.cursor() == old(self).worklist.cursor() + 1
                    &&& final(self).phase == (Phase::Reading { path: p })
                },
                None => {
                    &&& old(self).worklist.pending().len() == 0
                    &&& final(self).worklist.cursor() == old(self).worklist.cursor()
                    &&& final(self).phase is Validating
                },
            }),
            final(self).model() =~= spec_step(old(self).model(), DriverEvent::NextFile),
    {
        match self.worklist.take_next() {
            Some(p) => {
                proof {
                    assert(old(self).worklist.pending()[0] == old(
                        self,
                    ).worklist.all_paths()[old(self).worklist.cursor()]);
                }
                self.phase = Phase::Reading { path: p.clone() };
                Some(p)
            },
            None => {
                self.phase = Phase::Validating;
                None
            },
        }
    }

    /// Registers the text read for the awaited file under its display path
    /// and returns the file's fresh identifier.
    pub fn register_file(&mut self, path_text: String, source: String) -> (id: FileId)
        requires
            old(self).wf(),
            old(self).phase matches Phase::Reading { .. },
        ensures
            final(self).wf(),
            id == old(self).registry.entries().len(),
            final(self).registry.entries() =~= old(self).registry.entries().push(
                FileEntry { path: path_text, source },
            ),
            final(self).phase == (Phase::Parsing {
                path: old(self).phase->Reading_path,
                file_id: id,
            }),
            final(self).worklist == old(self).worklist,
            final(self).graph == old(self).graph,
            final(self).main_files == old(self).main_files,
            final(self).definition_files == old(self).definition_files,
            final(self).warnings == old(self).warnings,
            final(self).compiler_version == old(self).compiler_version,
            final(self).model() =~= spec_step(
                old(self).model(),
                DriverEvent::FileRead { path_text, source },
            ),
    {
        let path = match &self.phase {
            Phase::Reading { path } => path.clone(),
            _ => unreached(),
        };
        let id = self.registry.add_file(path_text, source);
        self.phase = Phase::Parsing { path, file_id: id };
        id
    }

    /// Ends the run on an unreadable file: the registry snapshot so far,
    /// paired with the single file-access diagnostic. Files not yet reached
    /// are never registered.
    pub fn read_failed(self, path_text: String) -> (out: (FileLibrary, ReportCollection))
        requires
            self.phase matches Phase::Reading { .. },
        ensures
            out.0 == self.registry,
            out.1@ =~= seq![Report::FileOsError { path: path_text }],
    {
        let mut reports: Vec<Report> = Vec::new();
        reports.push(Report::FileOsError { path: path_text });
        (self.registry, reports)
    }

    /// Ends the run on a file the external grammar rejected: the registry
    /// snapshot so far, paired with the single syntax diagnostic. Includes of
    /// the failing file are never scheduled, so files reachable only through
    /// it are never registered.
    pub fn syntax_error(self, message: String) -> (out: (FileLibrary, ReportCollection))
        requires
            self.phase matches Phase::Parsing { .. },
        ensures
            out.0 == self.registry,
            out.1@ =~= seq![
                Report::SyntaxError { file_id: self.phase->Parsing_file_id, message },
            ],
    {
        let file_id = match &self.phase {
            Phase::Parsing { file_id, .. } => *file_id,
            _ => unreached(),
        };
        let mut reports: Vec<Report> = Vec::new();
        reports.push(Report::SyntaxError { file_id, message });
        (self.registry, reports)
    }

    /// Ends a failed run: the registry snapshot so far, paired with the
    /// fatal diagnostic that [`AssemblyDriver::apply_parsed`] returned.
    pub fn failure(self, report: Report) -> (out: (FileLibrary, ReportCollection))
        requires
            self.phase is Failed,
        ensures
            out.0 == self.registry,
            out.1@ =~= seq![report],
    {
        let mut reports: Vec<Report> = Vec::new();
        reports.push(report);
        (self.registry, reports)
    }

    /// Distributes one parse result: the entry-point candidate, the file's
    /// graph node with its feature flags, its definitions slot, every include
    /// reference (scheduled and recorded as an edge, in order), and the
    /// version gate. A bad include reference or an incompatible version is a
    /// fatal diagnostic, returned for [`AssemblyDriver::failure`]; a missing
    /// version requirement appends one warning and the run goes on.
    #[verifier::loop_isolation(false)]
    pub fn apply_parsed(&mut self, parsed: ParsedFile) -> (r: Result<(), Report>)
        requires
            old(self).wf(),
            old(self).phase matches Phase::Parsing { .. },
        ensures
            final(self).wf(),
            final(self).registry == old(self).registry,
            final(self).compiler_version == old(self).compiler_version,
            final(self).worklist.cursor() == old(self).worklist.cursor(),
            ({
                let parent = old(self).phase->Parsing_path;
                let fid = old(self).phase->Parsing_file_id;
                let path_text = old(self).registry.entries()[fid as int].path;
                let st = spec_apply_includes(
                    old(self).worklist.all_paths(),
                    spec_add_node(
                        old(self).graph.nodes@,
                        parent,
                        parsed.declares_feature,
                        parsed.uses_feature,
                    ),
                    old(self).graph.edges@,
                    parent,
                    parsed.includes@,
                );
                &&& final(self).main_files@ == (if parsed.has_main {
                    old(self).main_files@.push(fid)
                } else {
                    old(self).main_files@
                })
                &&& final(self).definition_files@ == old(self).definition_files@.push(fid)
                &&& final(self).worklist.all_paths() == st.0
                &&& final(self).graph.nodes@ == st.1
                &&& final(self).graph.edges@ == st.2
                &&& (match st.3 {
                    Some(rep) => {
                        &&& r matches Err(e) && e == rep
                        &&& final(self).warnings@ == old(self).warnings@
                        &&& final(self).phase is Failed
                    },
                    None => (match parsed.compiler_version {
                        Some(req) => {
                            if version_compatible(req, old(self).compiler_version) {
                                &&& r is Ok
                                &&& final(self).warnings@ == old(self).warnings@
                                &&& final(self).phase is Fetching
                            } else {
                                &&& r matches Err(e) && e == (Report::CompilerVersionError {
                                    path: path_text,
                                    required_version: req,
                                    version: old(self).compiler_version,
                                })
                                &&& final(self).warnings@ == old(self).warnings@
                                &&& final(self).phase is Failed
                            }
                        },
                        None => {
                            &&& r is Ok
                            &&& final(self).warnings@ == old(self).warnings@.push(
                                Report::NoCompilerVersionWarning {
                                    path: path_text,
                                    version: old(self).compiler_version,
                                },
                            )
                            &&& final(self).phase is Fetching
                        },
                    }),
                })
            }),
            final(self).model() =~= spec_step(
                old(self).model(),
                DriverEvent::FileParsed { parsed },
            ),
    {
        let (parent, fid) = match &self.phase {
            Phase::Parsing { path, file_id } => (path.clone(), *file_id),
            _ => unreached(),
        };
        if parsed.has_main {
            self.main_files.push(fid);
        }
        self.graph.add_node(parent.clone(), parsed.declares_feature, parsed.uses_feature);
        self.definition_files.push(fid);
        let ghost queue0 = self.worklist.all_paths();
        let ghost nodes0 = self.graph.nodes@;
        let ghost edges0 = self.graph.edges@;
        let includes = parsed.includes;
        proof {
            assert(includes@.skip(0) =~= includes@);
        }
        let n_inc = includes.len();
        let mut i: usize = 0;
        while i < n_inc
            invariant
                0 <= i <= n_inc,
                self.wf(),
                self.registry == old(self).registry,
                self.main_files@ == (if parsed.has_main {
                    old(self).main_files@.push(old(self).phase->Parsing_file_id)
                } else {
                    old(self).main_files@
                }),
                self.definition_files@ == old(self).definition_files@.push(
                    old(self).phase->Parsing_file_id,
                ),
                self.warnings == old(self).warnings,
                self.compiler_version == old(self).compiler_version,
                self.phase == old(self).phase,
                self.worklist.cursor() == old(self).worklist.cursor(),
                spec_apply_includes(queue0, nodes0, edges0, parent, includes@)
                    == spec_apply_includes(
                    self.worklist.all_paths(),
                    self.graph.nodes@,
                    self.graph.edges@,
                    parent,
                    includes@.skip(i as int),
                ),
            decreases n_inc - i,
        {
            let inc = includes[i].clone();
            self.worklist.schedule(inc.clone());
            let step = self.graph.add_edge(parent.clone(), inc);
            proof {
                assert(includes@.skip(i as int)[0] == includes@[i as int]);
                assert(includes@.skip(i as int).drop_first() =~= includes@.skip(i as int + 1));
            }
            match step {
                Ok(()) => {},
                Err(rep) => {
                    self.phase = Phase::Failed;
                    return Err(rep);
                },
            }
            i += 1;
        }
        proof {
            assert(includes@.skip(n_inc as int) =~= Seq::<String>::empty());
        }
        let path_text = self.registry.get(fid).path.clone();
        match check_number_version(path_text, parsed.compiler_version, self.compiler_version) {
            Ok(mut fresh) => {
                let ghost w0 = self.warnings@;
                let ghost f0 = fresh@;
                self.warnings.append(&mut fresh);
                proof {
                    assert(self.warnings@ =~= w0 + f0);
                    if parsed.compiler_version is None {
                        assert(self.warnings@ =~= w0.push(
                            Report::NoCompilerVersionWarning {
                                path: old(self).registry.entries()[fid as int].path,
                                version: old(self).compiler_version,
                            },
                        ));
                    } else {
                        assert(self.warnings@ =~= w0);
                    }
                }
                self.phase = Phase::Fetching;
                Ok(())
            },
            Err(rep) => {
                self.phase = Phase::Failed;
                Err(rep)
            },
        }
    }

    /// The post-loop validation and hand-off. Exactly one entry-point
    /// candidate must exist: none is a no-entry-point error, several are a
    /// multiple-entry-point error. Then the pragma check runs; every
    /// problematic chain of includes becomes one diagnostic, and all of them
    /// are returned together. On success the caller receives the registry,
    /// the entry point's file, the definition order and the collected
    /// warnings, to hand to the external semantic builder.
    pub fn finish(self) -> (r: Result<
        (FileLibrary, FileId, Vec<FileId>, ReportCollection),
        (FileLibrary, ReportCollection),
    >)
        requires
            self.wf(),
            self.phase is Validating,
        ensures
            self.main_files@.len() == 0 ==> (r matches Err(out) && out.0 == self.registry
                && out.1@ =~= seq![Report::NoMainError]),
            self.main_files@.len() > 1 ==> (r matches Err(out) && out.0 == self.registry
                && out.1@ =~= seq![Report::MultipleMainError]),
            self.main_files@.len() == 1 ==> (match r {
                Ok(out) => {
                    &&& out.0 == self.registry
                    &&& out.1 == self.main_files@[0]
                    &&& out.2@ == self.definition_files@
                    &&& out.3@ == self.warnings@
                },
                Err(out) => {
                    &&& out.0 == self.registry
                    &&& out.1@.len() > 0
                    &&& forall|i: int|
                        0 <= i < out.1@.len() ==> ((#[trigger] out.1@[i]) matches
                            Report::CustomGatesPragmaError { chain }
                            && self.graph.problematic_chain(chain@))
                },
            }),
            (self.main_files@.len() == 1 && (forall|i: int|
                0 <= i < self.graph.nodes@.len() ==> (
                #[trigger] self.graph.nodes@[i]).declares_feature)) ==> r is Ok,
            (exists|i: int|
                0 <= i < self.graph.nodes@.len() && (#[trigger] self.graph.nodes@[i]).uses_feature
                    && !self.graph.nodes@[i].declares_feature) ==> r is Err,
    {
        let AssemblyDriver { registry, graph, main_files, definition_files, warnings, .. } = self;
        if main_files.len() == 0 {
            let mut reports: Vec<Report> = Vec::new();
            reports.push(Report::NoMainError);
            return Err((registry, reports));
        }
        if main_files.len() > 1 {
            let mut reports: Vec<Report> = Vec::new();
            reports.push(Report::MultipleMainError);
            return Err((registry, reports));
        }
        let mut chains = graph.get_problematic_paths();
        if chains.len() > 0 {
            proof {
                assert(!(forall|i: int|
                    0 <= i < self.graph.nodes@.len() ==> (
                    #[trigger] self.graph.nodes@[i]).declares_feature)) by {
                    if forall|i: int|
                        0 <= i < self.graph.nodes@.len() ==> (
                        #[trigger] self.graph.nodes@[i]).declares_feature {
                        crate::includes_graph::lemma_all_declared_no_problematic_chain(
                            self.graph,
                            chains@[0]@,
                        );
                    }
                }
            }
            let mut reports: Vec<Report> = Vec::new();
            while chains.len() > 0
                invariant
                    forall|ci: int|
                        0 <= ci < chains@.len() ==> graph.problematic_chain(
                            #[trigger] chains@[ci]@,
                        ),
                    reports@.len() + chains@.len() > 0,
                    forall|i: int|
                        0 <= i < reports@.len() ==> ((#[trigger] reports@[i]) matches
                            Report::CustomGatesPragmaError { chain }
                            && graph.problematic_chain(chain@)),
                decreases chains@.len(),
            {
                let chain = chains.remove(0);
                reports.push(Report::CustomGatesPragmaError { chain });
            }
            return Err((registry, reports));
        }
        let main_id = main_files[0];
        Ok((registry, main_id, definition_files, warnings))
    }
}

/// Law: no file is parsed twice. In every well-formed driver state, the
/// paths handed out for parsing so far are pairwise distinct, however many
/// distinct include chains reach each file: scheduling deduplicates by path
/// text before a path can ever be taken.
pub proof fn lemma_no_file_parsed_twice(d: AssemblyDriver)
    requires
        d.wf(),
    ensures
        forall|i: int, j: int|
            0 <= i < j < d.worklist.taken().len() ==> (#[trigger] d.worklist.taken()[i])@ != (
            #[trigger] d.worklist.taken()[j])@,
{
    crate::file_stack::lemma_taken_paths_distinct(d.worklist);
}

/// Law: assembly is deterministic. The next state depends on nothing but the
/// current state and the event handed in, so two runs started alike and fed
/// the same events — the same entry file, compiler version and file contents
/// arriving in the same order — reach the same state: identical diagnostics
/// and warnings, in identical order.
pub proof fn lemma_run_deterministic(
    s1: DriverState,
    s2: DriverState,
    events1: Seq<DriverEvent>,
    events2: Seq<DriverEvent>,
)
    requires
        s1 == s2,
        events1 == events2,
    ensures
        spec_run(s1, events1) == spec_run(s2, events2),
{
}

} // verus!
