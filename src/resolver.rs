//! The closure resolver: a state machine that walks the imports of the root
//! binary and of every library it copies, depth first, and says at each
//! point which outside operation is to be performed next.
//!
//! The caller performs each `Action` that `Resolver::action` names and hands
//! the outcome back to `Resolver::advance` as an `Event`, until the action is
//! `Done` or `Abort`.
use vstd::prelude::*;
use crate::classify::{classification_of, classify, system_owned, Classification};
use crate::config::Args;
use crate::search::{
    accepts, candidate_of, candidate_path, first_accepted, format_view, format_views,
    is_accepted, search_dll_shallow, SearchStep,
};
use crate::text::views;

verus! {

/// One binary whose imports are being worked through.
#[derive(Clone, Debug)]
pub struct Frame {
    /// The binary whose imports these are.
    pub binary: String,
    /// Its imported library names, in the order the inspector lists them.
    pub imports: Vec<String>,
    /// The index of the import being worked on.
    pub next: usize,
}

/// The mathematical value of a `Frame`.
pub struct FrameView {
    pub binary: Seq<char>,
    pub imports: Seq<Seq<char>>,
    pub next: int,
}

impl View for Frame {
    type V = FrameView;

    open spec fn view(&self) -> FrameView {
        FrameView { binary: self.binary@, imports: views(self.imports@), next: self.next as int }
    }
}

/// The views of a stack of frames.
pub open spec fn frame_views(s: Seq<Frame>) -> Seq<FrameView> {
    s.map_values(|f: Frame| f@)
}

/// The frame is through with its imports.
pub open spec fn finished(f: FrameView) -> bool {
    f.next >= f.imports.len()
}

/// The stack with every finished frame on top of it removed.
pub open spec fn settle(fs: Seq<FrameView>) -> Seq<FrameView>
    decreases fs.len(),
{
    if fs.len() == 0 {
        fs
    } else if finished(fs.last()) {
        settle(fs.drop_last())
    } else {
        fs
    }
}

/// The stack with the top frame moved on to its next import.
pub open spec fn advanced(fs: Seq<FrameView>) -> Seq<FrameView> {
    fs.update(
        fs.len() - 1,
        FrameView { binary: fs.last().binary, imports: fs.last().imports, next: fs.last().next + 1 },
    )
}

/// A fresh frame for a binary whose imports are not yet known.
pub open spec fn fresh(binary: Seq<char>) -> FrameView {
    FrameView { binary, imports: Seq::empty(), next: 0 }
}

/// Settling never pushes.
pub proof fn lemma_settle_len(fs: Seq<FrameView>)
    ensures
        settle(fs).len() <= fs.len(),
        settle(fs).len() == 0 || !finished(settle(fs).last()),
        settle(fs).len() > 0 ==> settle(fs) == fs.take(settle(fs).len() as int),
    decreases fs.len(),
{
    if fs.len() > 0 && finished(fs.last()) {
        lemma_settle_len(fs.drop_last());
        let s = settle(fs.drop_last());
        if s.len() > 0 {
            assert(fs.drop_last().take(s.len() as int) =~= fs.take(s.len() as int));
        }
    } else if fs.len() > 0 {
        assert(fs.take(fs.len() as int) =~= fs);
    }
}

/// Where the resolver stands.
#[derive(Clone, Copy, Debug, PartialEq, Eq, Structural)]
pub enum Phase {
    /// The imports of the top binary are to be listed.
    Start,
    /// The current import is to be classified.
    Classify,
    /// The next top-level candidate is to be probed.
    Shallow,
    /// A walk of the current deep-search root is to begin.
    DeepStart,
    /// The walk is to go on to its next directory.
    DeepWalk,
    /// The candidate in the walk's current directory is to be probed.
    DeepProbe,
    /// The accepted candidate is to be copied.
    Copy,
    /// A missing import is to be reported, and the run goes on.
    Report,
    /// Every import is dealt with.
    Done,
    /// A required import could not be found; the run stops.
    Failed,
}

/// The outside operation that the resolver asks for next.
#[derive(Clone, Debug)]
pub enum Action {
    /// List the imports of this binary; answer `Event::Imports`.
    ListImports(String),
    /// Tell whether `path` exists and whether a system directory holds
    /// `name`; answer `Event::Classified`.
    Classify { name: String, path: String },
    /// Tell the binary format of the file at this path, if a file stands
    /// there; answer `Event::Format`.
    Probe(String),
    /// Begin a walk of this directory's subtree; answer `Event::Entry` with its first directory.
    WalkFrom(String),
    /// Go on with the walk; answer `Event::Entry` with its next directory.
    WalkOn,
    /// Copy the file `from` to `to`; answer `Event::Copied`.
    Copy { from: String, to: String },
    /// Report that `name`, needed by `binary`, was not found; answer `Event::Reported`.
    ReportMissing { name: String, binary: String },
    /// Stop: `name`, needed by `binary`, was not found.
    Abort { name: String, binary: String },
    /// The deployment is complete.
    Done,
}

/// The outcome of an action.
#[derive(Clone, Debug)]
pub enum Event {
    /// The imports of the binary, in the inspector's order.
    Imports(Vec<String>),
    /// Whether the deployment directory holds the import, and whether a
    /// system directory does.
    Classified { present: bool, in_system_dir: bool },
    /// The format of the probed file, or `None` where no file stands.
    Format(Option<String>),
    /// The next directory of the walk, or `None` when the walk is over.
    Entry(Option<String>),
    /// The copy was made.
    Copied,
    /// The missing import was reported.
    Reported,
}

/// The event is the answer to what a resolver in `phase` asked for.
pub open spec fn answers(phase: Phase, ev: Event) -> bool {
    match ev {
        Event::Imports(_) => phase == Phase::Start,
        Event::Classified { .. } => phase == Phase::Classify,
        Event::Format(_) => phase == Phase::Shallow || phase == Phase::DeepProbe,
        Event::Entry(_) => phase == Phase::DeepStart || phase == Phase::DeepWalk,
        Event::Copied => phase == Phase::Copy,
        Event::Reported => phase == Phase::Report,
    }
}

/// Where a search that found nothing leads: on to the report where missing
/// libraries are allowed, else to failure.
pub open spec fn missing_phase(allow_missing: bool) -> Phase {
    if allow_missing {
        Phase::Report
    } else {
        Phase::Failed
    }
}

/// The phase after the frames settle.
pub open spec fn settled_phase(fs: Seq<FrameView>) -> Phase {
    if settle(fs).len() == 0 {
        Phase::Done
    } else {
        Phase::Classify
    }
}

/// The phases of a run in which nothing is searched or copied.
pub open spec fn quiet(phase: Phase) -> bool {
    phase == Phase::Start || phase == Phase::Classify || phase == Phase::Done
}

/// The event lists imports, or finds the import already deployed.
pub open spec fn finds_deployed(ev: Event) -> bool {
    match ev {
        Event::Imports(_) => true,
        Event::Classified { present, .. } => present,
        _ => false,
    }
}

/// The state of one deployment run.
pub struct Resolver {
    /// The run's options.
    pub args: Args,
    /// The directory that receives the copies, and that holds the root binary.
    pub target_dir: String,
    /// The binary format of the root binary, which every copy must share.
    pub root_format: String,
    /// The names of the operating system's own libraries.
    pub known: Vec<String>,
    /// The directories whose top level is searched, in order.
    pub shallow_dirs: Vec<String>,
    /// The directories whose subtree is searched, in order.
    pub deep_dirs: Vec<String>,
    /// The binaries being worked through; the last is the current one.
    pub stack: Vec<Frame>,
    /// Where the run stands.
    pub phase: Phase,
    /// The formats found so far for the top-level candidates of the current import.
    pub formats: Vec<Option<String>>,
    /// The index of the deep-search root being walked.
    pub root: usize,
    /// The walk's current directory.
    pub entry: String,
    /// The accepted candidate that is to be copied.
    pub found: String,
}

impl Resolver {
    /// The frames of the run.
    pub open spec fn frames(&self) -> Seq<FrameView> {
        frame_views(self.stack@)
    }

    /// The current frame.
    pub open spec fn top(&self) -> FrameView {
        self.frames().last()
    }

    /// The import being worked on.
    pub open spec fn current(&self) -> Seq<char> {
        self.top().imports[self.top().next]
    }

    /// The top-level search takes place.
    pub open spec fn shallow_on(&self) -> bool {
        !self.args.no_shallow_search && self.shallow_dirs.len() > 0
    }

    /// The subtree search takes place.
    pub open spec fn deep_on(&self) -> bool {
        !self.args.no_deep_search && self.deep_dirs.len() > 0
    }

    /// The phase in which a search of the current import that has found
    /// nothing at the top level goes on.
    pub open spec fn after_shallow(&self) -> Phase {
        if self.deep_on() {
            Phase::DeepStart
        } else {
            missing_phase(self.args.allow_missing)
        }
    }

    /// The class of the current import, given the probes' answers.
    pub open spec fn class_of_current(&self, present: bool, in_system_dir: bool) -> Classification {
        classification_of(
            self.current(),
            views(self.args.ignore@),
            self.args.copy_vc_redist,
            present,
            system_owned(self.current(), views(self.known@), in_system_dir),
        )
    }

    /// The state is consistent.
    pub open spec fn wf(&self) -> bool {
        &&& (self.phase == Phase::Done) == (self.stack.len() == 0)
        &&& (self.phase != Phase::Start && self.phase != Phase::Done) ==> self.top().next
            < self.top().imports.len()
        &&& self.phase == Phase::Shallow ==> {
            &&& !self.args.no_shallow_search
            &&& self.formats.len() < self.shallow_dirs.len()
            &&& first_accepted(format_views(self.formats@), self.root_format@) is None
        }
        &&& (self.phase == Phase::DeepStart || self.phase == Phase::DeepWalk || self.phase
            == Phase::DeepProbe) ==> !self.args.no_deep_search && self.root < self.deep_dirs.len()
    }

    /// `a` and `b` were set up alike.
    pub open spec fn same_setup(a: &Resolver, b: &Resolver) -> bool {
        &&& a.args == b.args
        &&& a.target_dir == b.target_dir
        &&& a.root_format == b.root_format
        &&& a.known == b.known
        &&& a.shallow_dirs == b.shallow_dirs
        &&& a.deep_dirs == b.deep_dirs
    }

    /// A resolver for the root `binary`, which stands in `target_dir` and has
    /// the format `root_format`.
    pub fn new(
        args: Args,
        binary: String,
        target_dir: String,
        root_format: String,
        known: Vec<String>,
        shallow_dirs: Vec<String>,
        deep_dirs: Vec<String>,
    ) -> (r: Resolver)
        ensures
            r.wf(),
            r.phase == Phase::Start,
            r.frames() == seq![fresh(binary@)],
            r.args == args,
            r.target_dir == target_dir,
            r.root_format == root_format,
            r.known == known,
            r.shallow_dirs == shallow_dirs,
            r.deep_dirs == deep_dirs,
    {
        let ghost bv = binary@;
        let mut stack: Vec<Frame> = Vec::new();
        stack.push(Frame { binary, imports: Vec::new(), next: 0 });
        let r = Resolver {
            args,
            target_dir,
            root_format,
            known,
            shallow_dirs,
            deep_dirs,
            stack,
            phase: Phase::Start,
            formats: Vec::new(),
            root: 0,
            entry: String::new(),
            found: String::new(),
        };
        proof {
            assert(views(r.stack@[0].imports@) =~= Seq::<Seq<char>>::empty());
            assert(r.frames() =~= seq![fresh(bv)]);
        }
        r
    }
}

impl Resolver {
    /// The outside operation to perform next.
    pub fn action(&self) -> (r: Action)
        requires
            self.wf(),
        ensures
            self.phase == Phase::Start ==> (r matches Action::ListImports(b) && b@ == self.top().binary),
            self.phase == Phase::Classify ==> (r matches Action::Classify { name, path } && name@
                == self.current() && path@ == candidate_of(self.target_dir@, self.current())),
            self.phase == Phase::Shallow ==> (r matches Action::Probe(p) && p@ == candidate_of(
                self.shallow_dirs@[self.formats.len() as int]@,
                self.current(),
            )),
            self.phase == Phase::DeepStart ==> (r matches Action::WalkFrom(d) && d@
                == self.deep_dirs@[self.root as int]@),
            self.phase == Phase::DeepWalk ==> r is WalkOn,
            self.phase == Phase::DeepProbe ==> (r matches Action::Probe(p) && p@ == candidate_of(
                self.entry@,
                self.current(),
            )),
            self.phase == Phase::Copy ==> (r matches Action::Copy { from, to } && from@ == self.found@
                && to@ == candidate_of(self.target_dir@, self.current())),
            self.phase == Phase::Report ==> (r matches Action::ReportMissing { name, binary } && name@
                == self.current() && binary@ == self.top().binary),
            self.phase == Phase::Failed ==> (r matches Action::Abort { name, binary } && name@
                == self.current() && binary@ == self.top().binary),
            self.phase == Phase::Done ==> r is Done,
    {
        if self.phase == Phase::Done {
            return Action::Done;
        }
        let k = self.stack.len() - 1;
        let top = &self.stack[k];
        proof {
            assert(self.top() == top@);
        }
        match self.phase {
            Phase::Start => Action::ListImports(top.binary.clone()),
            _ => {
                let name = top.imports[top.next].clone();
                proof {
                    assert(views(top.imports@)[top.next as int] == top.imports@[top.next as int]@);
                }
                match self.phase {
                    Phase::Classify => {
                        let path = candidate_path(&self.target_dir, &name);
                        Action::Classify { name, path }
                    },
                    Phase::Shallow => {
                        match search_dll_shallow(&name, &self.shallow_dirs, &self.formats, &self.root_format) {
                            SearchStep::Probe(p) => Action::Probe(p),
                            _ => {
                                proof {
                                    assert(false);
                                }
                                Action::Done
                            },
                        }
                    },
                    Phase::DeepStart => Action::WalkFrom(self.deep_dirs[self.root].clone()),
                    Phase::DeepWalk => Action::WalkOn,
                    Phase::DeepProbe => Action::Probe(candidate_path(&self.entry, &name)),
                    Phase::Copy => Action::Copy {
                        from: self.found.clone(),
                        to: candidate_path(&self.target_dir, &name),
                    },
                    Phase::Report => Action::ReportMissing { name, binary: top.binary.clone() },
                    _ => Action::Abort { name, binary: top.binary.clone() },
                }
            },
        }
    }
}

impl Resolver {
    fn current_name(&self) -> (r: String)
        requires
            self.stack.len() > 0,
            self.top().next < self.top().imports.len(),
        ensures
            r@ == self.current(),
    {
        let top = &self.stack[self.stack.len() - 1];
        proof {
            assert(self.top() == top@);
            assert(views(top.imports@)[top.next as int] == top.imports@[top.next as int]@);
        }
        top.imports[top.next].clone()
    }

    /// Removes the finished frames on top of the stack.
    fn settle_frames(&mut self)
        ensures
            final(self).frames() == settle(old(self).frames()),
            final(self).phase == settled_phase(old(self).frames()),
            Resolver::same_setup(&*old(self), &*final(self)),
    {
        proof {
            lemma_settle_len(self.frames());
        }
        let ghost target = settle(self.frames());
        let mut done = false;
        while !done
            invariant
                settle(self.frames()) == target,
                done ==> self.frames() == target,
                Resolver::same_setup(&*old(self), &*self),
            decreases self.stack.len() + if done { 0int } else { 1int },
        {
            if self.stack.len() == 0 {
                done = true;
            } else {
                let k = self.stack.len() - 1;
                proof {
                    assert(self.frames().last() == self.stack@[k as int]@);
                }
                if self.stack[k].next < self.stack[k].imports.len() {
                    done = true;
                } else {
                    let ghost before = self.frames();
                    self.stack.pop();
                    proof {
                        assert(self.frames() =~= before.drop_last());
                    }
                }
            }
        }
        if self.stack.len() == 0 {
            self.phase = Phase::Done;
        } else {
            self.phase = Phase::Classify;
        }
    }

    /// Moves the top frame on to its next import and settles the stack.
    fn next_import(&mut self)
        requires
            old(self).stack.len() > 0,
            old(self).top().next < old(self).top().imports.len(),
        ensures
            final(self).frames() == settle(advanced(old(self).frames())),
            final(self).phase == settled_phase(advanced(old(self).frames())),
            Resolver::same_setup(&*old(self), &*final(self)),
    {
        let ghost before = self.frames();
        let mut f = self.stack.pop().unwrap();
        proof {
            assert(f@ == before.last());
            assert(f.next < f.imports.len());
        }
        f.next = f.next + 1;
        self.stack.push(f);
        proof {
            assert(self.frames() =~= advanced(before));
        }
        self.settle_frames();
    }
}

impl Resolver {
    /// Leaves the top-level search: on to the subtree search, or to the
    /// missing-library outcome.
    fn leave_shallow(&mut self)
        ensures
            final(self).phase == old(self).after_shallow(),
            final(self).phase == Phase::DeepStart ==> final(self).root == 0,
            final(self).stack == old(self).stack,
            final(self).formats == old(self).formats,
            Resolver::same_setup(&*old(self), &*final(self)),
    {
        if !self.args.no_deep_search && self.deep_dirs.len() > 0 {
            self.root = 0;
            self.phase = Phase::DeepStart;
        } else if self.args.allow_missing {
            self.phase = Phase::Report;
        } else {
            self.phase = Phase::Failed;
        }
    }

    /// Takes the next step of the top-level search from the formats probed so far.
    fn shallow_continue(&mut self)
        requires
            old(self).stack.len() > 0,
            old(self).top().next < old(self).top().imports.len(),
            !old(self).args.no_shallow_search,
            old(self).formats.len() <= old(self).shallow_dirs.len(),
        ensures
            final(self).stack == old(self).stack,
            final(self).formats == old(self).formats,
            Resolver::same_setup(&*old(self), &*final(self)),
            match first_accepted(format_views(old(self).formats@), old(self).root_format@) {
                Some(i) => final(self).phase == Phase::Copy && final(self).found@ == candidate_of(
                    old(self).shallow_dirs@[i]@,
                    old(self).current(),
                ),
                None => if old(self).formats.len() < old(self).shallow_dirs.len() {
                    final(self).phase == Phase::Shallow
                } else {
                    final(self).phase == old(self).after_shallow() && (final(self).phase
                        == Phase::DeepStart ==> final(self).root == 0)
                },
            },
    {
        let name = self.current_name();
        match search_dll_shallow(&name, &self.shallow_dirs, &self.formats, &self.root_format) {
            SearchStep::Found(p) => {
                self.found = p;
                self.phase = Phase::Copy;
            },
            SearchStep::Probe(_) => {
                self.phase = Phase::Shallow;
            },
            SearchStep::NotFound => {
                self.leave_shallow();
            },
        }
    }

    /// Hands the outcome of the last action to the resolver, which moves to
    /// its next state. An event that does not answer the last action changes nothing.
    pub fn advance(&mut self, ev: Event)
        requires
            old(self).wf(),
        ensures
            final(self).wf(),
            Resolver::same_setup(&*old(self), &*final(self)),
            !answers(old(self).phase, ev) ==> *final(self) == *old(self),
            // Where every import is found already deployed, the run never leaves
            // the quiet phases, so it neither searches nor copies.
            quiet(old(self).phase) && (finds_deployed(ev) || !answers(old(self).phase, ev)) ==> quiet(
                final(self).phase,
            ),
            // A failed run stays failed: nothing more is searched or copied.
            old(self).phase == Phase::Failed ==> *final(self) == *old(self),
            // A frame is pushed only for the file just copied, after the copy.
            final(self).frames().len() > old(self).frames().len() ==> old(self).phase == Phase::Copy
                && ev is Copied && final(self).frames() == advanced(old(self).frames()).push(
                fresh(candidate_of(old(self).target_dir@, old(self).current())),
            ),
            ev matches Event::Imports(v) ==> (old(self).phase == Phase::Start ==> {
                let fs = old(self).frames().update(
                    old(self).frames().len() - 1,
                    FrameView { binary: old(self).top().binary, imports: views(v@), next: 0 },
                );
                final(self).frames() == settle(fs) && final(self).phase == settled_phase(fs)
            }),
            ev matches Event::Classified { present, in_system_dir } ==> (old(self).phase
                == Phase::Classify ==> {
                let c = old(self).class_of_current(present, in_system_dir);
                &&& present ==> c == Classification::AlreadyPresent
                &&& present ==> (final(self).phase == Phase::Classify || final(self).phase
                    == Phase::Done)
                &&& c != Classification::Unresolved ==> final(self).frames() == settle(
                    advanced(old(self).frames()),
                ) && final(self).phase == settled_phase(advanced(old(self).frames()))
                &&& c == Classification::Unresolved ==> {
                    &&& final(self).frames() == old(self).frames()
                    &&& final(self).formats.len() == 0
                    &&& final(self).phase == if old(self).shallow_on() {
                        Phase::Shallow
                    } else {
                        old(self).after_shallow()
                    }
                    &&& final(self).phase == Phase::DeepStart ==> final(self).root == 0
                }
            }),
            ev matches Event::Format(f) ==> (old(self).phase == Phase::Shallow ==> {
                let fs = format_views(old(self).formats@).push(format_view(f));
                &&& final(self).frames() == old(self).frames()
                &&& format_views(final(self).formats@) == fs
                &&& match first_accepted(fs, old(self).root_format@) {
                    Some(i) => final(self).phase == Phase::Copy && final(self).found@
                        == candidate_of(old(self).shallow_dirs@[i]@, old(self).current()),
                    None => if fs.len() < old(self).shallow_dirs.len() {
                        final(self).phase == Phase::Shallow
                    } else {
                        final(self).phase == old(self).after_shallow() && (final(self).phase
                            == Phase::DeepStart ==> final(self).root == 0)
                    },
                }
            }),
            ev matches Event::Format(f) ==> (old(self).phase == Phase::DeepProbe ==> {
                &&& final(self).frames() == old(self).frames()
                &&& accepts(format_view(f), old(self).root_format@) ==> final(self).phase
                    == Phase::Copy && final(self).found@ == candidate_of(
                    old(self).entry@,
                    old(self).current(),
                )
                &&& !accepts(format_view(f), old(self).root_format@) ==> final(self).phase
                    == Phase::DeepWalk && final(self).root == old(self).root
            }),
            ev matches Event::Entry(e) ==> ((old(self).phase == Phase::DeepStart || old(self).phase
                == Phase::DeepWalk) ==> {
                &&& final(self).frames() == old(self).frames()
                &&& match e {
                    Some(d) => final(self).phase == Phase::DeepProbe && final(self).entry@ == d@
                        && final(self).root == old(self).root,
                    None => if old(self).root + 1 < old(self).deep_dirs.len() {
                        final(self).phase == Phase::DeepStart && final(self).root == old(self).root
                            + 1
                    } else {
                        final(self).phase == missing_phase(old(self).args.allow_missing)
                    },
                }
            }),
            ev is Copied && old(self).phase == Phase::Copy ==> final(self).frames() == advanced(
                old(self).frames(),
            ).push(fresh(candidate_of(old(self).target_dir@, old(self).current())))
                && final(self).phase == Phase::Start,
            ev is Reported && old(self).phase == Phase::Report ==> final(self).frames() == settle(
                advanced(old(self).frames()),
            ) && final(self).phase == settled_phase(advanced(old(self).frames())),
    {
        let ghost old_frames = self.frames();
        proof {
            lemma_settle_len(old_frames);
            lemma_settle_len(advanced(old_frames));
        }
        match ev {
            Event::Imports(v) => {
                if self.phase == Phase::Start {
                    let mut f = self.stack.pop().unwrap();
                    proof {
                        assert(f@ == old_frames.last());
                    }
                    f.imports = v;
                    f.next = 0;
                    self.stack.push(f);
                    proof {
                        assert(self.frames() =~= old_frames.update(
                            old_frames.len() - 1,
                            FrameView { binary: old_frames.last().binary, imports: views(v@), next: 0 },
                        ));
                        lemma_settle_len(self.frames());
                    }
                    self.settle_frames();
                }
            },
            Event::Classified { present, in_system_dir } => {
                if self.phase == Phase::Classify {
                    let name = self.current_name();
                    let c = classify(&name, &self.args, present, &self.known, in_system_dir);
                    if c != Classification::Unresolved {
                        self.next_import();
                    } else {
                        self.formats = Vec::new();
                        if !self.args.no_shallow_search && self.shallow_dirs.len() > 0 {
                            self.shallow_continue();
                        } else {
                            self.leave_shallow();
                        }
                    }
                }
            },
            Event::Format(f) => {
                if self.phase == Phase::Shallow {
                    let ghost before = format_views(self.formats@);
                    self.formats.push(f);
                    proof {
                        assert(format_views(self.formats@) =~= before.push(format_view(f)));
                    }
                    self.shallow_continue();
                } else if self.phase == Phase::DeepProbe {
                    if is_accepted(&f, &self.root_format) {
                        let name = self.current_name();
                        self.found = candidate_path(&self.entry, &name);
                        self.phase = Phase::Copy;
                    } else {
                        self.phase = Phase::DeepWalk;
                    }
                }
            },
            Event::Entry(e) => {
                if self.phase == Phase::DeepStart || self.phase == Phase::DeepWalk {
                    match e {
                        Some(d) => {
                            self.entry = d;
                            self.phase = Phase::DeepProbe;
                        },
                        None => {
                            if self.root + 1 < self.deep_dirs.len() {
                                self.root = self.root + 1;
                                self.phase = Phase::DeepStart;
                            } else if self.args.allow_missing {
                                self.phase = Phase::Report;
                            } else {
                                self.phase = Phase::Failed;
                            }
                        },
                    }
                }
            },
            Event::Copied => {
                if self.phase == Phase::Copy {
                    let name = self.current_name();
                    let to = candidate_path(&self.target_dir, &name);
                    let mut f = self.stack.pop().unwrap();
                    proof {
                        assert(f@ == old_frames.last());
                        assert(f.next < f.imports.len());
                    }
                    f.next = f.next + 1;
                    self.stack.push(f);
                    self.stack.push(Frame { binary: to, imports: Vec::new(), next: 0 });
                    proof {
                        assert(views(self.stack@.last().imports@) =~= Seq::<Seq<char>>::empty());
                        assert(self.frames() =~= advanced(old_frames).push(fresh(to@)));
                    }
                    self.phase = Phase::Start;
                }
            },
            Event::Reported => {
                if self.phase == Phase::Report {
                    self.next_import();
                }
            },
        }
    }
}

} // verus!
