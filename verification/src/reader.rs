//! The sources of a run and the chain that presents them as one stream.

use vstd::prelude::*;
use vstd::string::*;
use crate::errors::{CrabError, Failure};

verus! {

/// A source of input.
#[derive(Debug)]
pub enum InputSource {
    /// Standard input.
    Stdin,
    /// The file at a path.
    File(String),
}

/// A source of input, as contracts see it.
pub enum Source {
    /// Standard input.
    Stdin,
    /// The file at a path.
    File(Seq<char>),
}

impl View for InputSource {
    type V = Source;

    open spec fn view(&self) -> Source {
        match self {
            InputSource::Stdin => Source::Stdin,
            InputSource::File(path) => Source::File(path@),
        }
    }
}

impl Clone for InputSource {
    fn clone(&self) -> (res: InputSource)
        ensures
            res@ == self@,
    {
        match self {
            InputSource::Stdin => InputSource::Stdin,
            InputSource::File(path) => InputSource::File(path.clone()),
        }
    }
}

/// The views of the sources in `v`.
pub open spec fn sources_of(v: Seq<InputSource>) -> Seq<Source> {
    Seq::new(v.len(), |i: int| v[i]@)
}

/// The views of the strings in `v`.
pub open spec fn tokens_of(v: Seq<String>) -> Seq<Seq<char>> {
    Seq::new(v.len(), |i: int| v[i]@)
}

/// The source that `token` names: `-` is standard input, anything else
/// is the path of a file.
pub open spec fn resolve_token(token: Seq<char>) -> Source {
    if token =~= seq!['-'] {
        Source::Stdin
    } else {
        Source::File(token)
    }
}

/// The sources that `tokens` name, in their order. No token at all means
/// standard input alone.
pub open spec fn resolve(tokens: Seq<Seq<char>>) -> Seq<Source> {
    if tokens.len() == 0 {
        seq![Source::Stdin]
    } else {
        Seq::new(tokens.len(), |i: int| resolve_token(tokens[i]))
    }
}

/// Turns the tokens of the command line into the sources of the run.
/// Nothing is looked up: whether a path exists shows when it is opened.
pub fn get_sources(files: &[String]) -> (res: Vec<InputSource>)
    ensures
        sources_of(res@) == resolve(tokens_of(files@)),
{
    let mut res: Vec<InputSource> = Vec::new();
    if files.len() == 0 {
        res.push(InputSource::Stdin);
        assert(sources_of(res@) =~= seq![Source::Stdin]);
        return res;
    }
    let mut i: usize = 0;
    while i < files.len()
        invariant
            i <= files.len(),
            res@.len() == i,
            forall|j: int| 0 <= j < i ==> (#[trigger] res@[j])@ == resolve_token(files@[j]@),
        decreases files.len() - i,
    {
        let file = &files[i];
        let dash = file.as_str().unicode_len() == 1 && file.as_str().get_char(0) == '-';
        proof {
            if dash {
                assert(file@ =~= seq!['-']);
            }
        }
        if dash {
            res.push(InputSource::Stdin);
        } else {
            res.push(InputSource::File(file.clone()));
        }
        i += 1;
    }
    assert(sources_of(res@) =~= resolve(tokens_of(files@)));
    res
}

/// What the chain asks for next.
#[derive(Debug)]
pub enum Action {
    /// Open the file at this path.
    Open(String),
    /// Read the next bytes of the file that is open.
    ReadFile,
    /// Read the next bytes of standard input.
    ReadStdin,
    /// Nothing: every source is done.
    Finish,
}

/// What the chain asks for next, as contracts see it.
pub enum Step {
    /// Open the file at this path.
    Open(Seq<char>),
    /// Read the next bytes of the file that is open.
    ReadFile,
    /// Read the next bytes of standard input.
    ReadStdin,
    /// Nothing: every source is done.
    Finish,
}

impl View for Action {
    type V = Step;

    open spec fn view(&self) -> Step {
        match self {
            Action::Open(path) => Step::Open(path@),
            Action::ReadFile => Step::ReadFile,
            Action::ReadStdin => Step::ReadStdin,
            Action::Finish => Step::Finish,
        }
    }
}

/// What came of the last action.
#[derive(Debug)]
pub enum Event {
    /// The file is open.
    Opened,
    /// The file could not be opened; what the system said.
    OpenFailed(String),
    /// So many bytes were read and passed on; none means that the source
    /// is at its end.
    Read(usize),
    /// The read failed; what the system said.
    ReadFailed(String),
}

/// What came of the last action, as contracts see it.
pub enum Outcome {
    /// The file is open.
    Opened,
    /// The file could not be opened; what the system said.
    OpenFailed(Seq<char>),
    /// So many bytes were read and passed on.
    Read(nat),
    /// The read failed; what the system said.
    ReadFailed(Seq<char>),
}

impl View for Event {
    type V = Outcome;

    open spec fn view(&self) -> Outcome {
        match self {
            Event::Opened => Outcome::Opened,
            Event::OpenFailed(error) => Outcome::OpenFailed(error@),
            Event::Read(n) => Outcome::Read(*n as nat),
            Event::ReadFailed(error) => Outcome::ReadFailed(error@),
        }
    }
}

/// The state of the chain: the sources still to come, the first of them
/// being the current one; whether the current one is open; and which
/// kinds of failure there have been.
pub struct ChainState {
    /// The sources that are not done, in order.
    pub queue: Seq<Source>,
    /// Whether the first of them is open and being read.
    pub opened: bool,
    /// Whether some source could not be opened.
    pub open_failed: bool,
    /// Whether some source failed while it was read.
    pub read_failed: bool,
}

impl ChainState {
    /// The state before anything was done for `sources`.
    pub open spec fn start(sources: Seq<Source>) -> ChainState {
        ChainState { queue: sources, opened: false, open_failed: false, read_failed: false }
    }

    /// Whether the current source is a file that is not open yet.
    pub open spec fn awaits_open(self) -> bool {
        self.queue.len() > 0 && self.queue[0] is File && !self.opened
    }

    /// Whether the current source is standard input, not yet looked at.
    pub open spec fn awaits_stdin(self) -> bool {
        self.queue.len() > 0 && self.queue[0] is Stdin && !self.opened
    }

    /// Whether the current source is open and being read.
    pub open spec fn reading(self) -> bool {
        self.queue.len() > 0 && self.opened
    }

    /// The state with the current source done and the next one current.
    pub open spec fn dropped(self) -> ChainState {
        ChainState { queue: self.queue.drop_first(), opened: false, ..self }
    }

    /// The state after standard input became current and was looked at:
    /// on a terminal it is passed over, else it is read.
    pub open spec fn admitted(self, interactive: bool) -> ChainState {
        if interactive {
            self.dropped()
        } else {
            ChainState { opened: true, ..self }
        }
    }

    /// What to do in a state that does not wait for a look at standard
    /// input.
    pub open spec fn step(self) -> Step {
        if self.queue.len() == 0 {
            Step::Finish
        } else {
            match self.queue[0] {
                Source::File(path) => if self.opened {
                    Step::ReadFile
                } else {
                    Step::Open(path)
                },
                Source::Stdin => Step::ReadStdin,
            }
        }
    }

    /// Whether `outcome` can come in this state: an answer on opening
    /// where a file waits to be opened, one on reading where a source is
    /// being read.
    pub open spec fn expects(self, outcome: Outcome) -> bool {
        match outcome {
            Outcome::Opened => self.awaits_open(),
            Outcome::OpenFailed(_) => self.awaits_open(),
            Outcome::Read(_) => self.reading(),
            Outcome::ReadFailed(_) => self.reading(),
        }
    }

    /// The state after `outcome`. A source that fails to open, fails
    /// while read or is at its end is done; a failure is remembered.
    pub open spec fn after(self, outcome: Outcome) -> ChainState {
        match outcome {
            Outcome::Opened => ChainState { opened: true, ..self },
            Outcome::OpenFailed(_) => ChainState { open_failed: true, ..self.dropped() },
            Outcome::Read(n) => if n == 0 {
                self.dropped()
            } else {
                self
            },
            Outcome::ReadFailed(_) => ChainState { read_failed: true, ..self.dropped() },
        }
    }

    /// The failure to report on `outcome`, if it is one.
    pub open spec fn failure(self, outcome: Outcome) -> Option<Failure> {
        match outcome {
            Outcome::OpenFailed(error) => Some(Failure::Open(self.queue[0]->File_0, error)),
            Outcome::ReadFailed(error) => Some(Failure::Read(self.queue[0], error)),
            _ => None,
        }
    }

    /// The status of the run so far: 1 where a source could not be
    /// opened, 2 where one failed while read, 3 where both happened, 0
    /// where neither did.
    pub open spec fn status(self) -> int {
        (if self.open_failed {
            1int
        } else {
            0int
        }) + (if self.read_failed {
            2int
        } else {
            0int
        })
    }

    /// Whether `later` is this state after some leading entries for
    /// standard input were looked at: each was passed over but, at most,
    /// the last, which is then open. Nothing else has changed.
    pub open spec fn looked_past(self, later: ChainState) -> bool {
        let k = self.queue.len() - later.queue.len();
        &&& 0 <= k
        &&& later.queue == self.queue.skip(k)
        &&& forall|i: int| 0 <= i < k ==> self.queue[i] is Stdin
        &&& k > 0 ==> !self.opened
        &&& self.opened ==> later.opened
        &&& later.opened && !self.opened ==> later.queue.len() > 0 && later.queue[0] is Stdin
        &&& later.open_failed == self.open_failed
        &&& later.read_failed == self.read_failed
    }
}

/// The failure in `report`, as contracts see it.
pub open spec fn failure_of(report: Option<CrabError>) -> Option<Failure> {
    match report {
        Some(e) => Some(e@),
        None => None,
    }
}

/// The step in `action`, as contracts see it.
pub open spec fn step_of(action: Option<Action>) -> Option<Step> {
    match action {
        Some(a) => Some(a@),
        None => None,
    }
}

/// Whether standard input is something other than a terminal. Calls
/// `atty::isnt` with `atty::Stream::Stdin`; the answer depends on how the
/// process was started, so nothing is claimed of it.
#[verifier::external_body]
fn stdin_is_redirected() -> (redirected: bool) {
    atty::isnt(atty::Stream::Stdin)
}

/// The chain of sources: it says what to do next, takes what came of it,
/// and keeps the status of the run. It does no reading itself.
pub struct Reader {
    sources: Vec<InputSource>,
    next: usize,
    opened: bool,
    open_failed: bool,
    read_failed: bool,
}

impl View for Reader {
    type V = ChainState;

    closed spec fn view(&self) -> ChainState {
        ChainState {
            queue: sources_of(self.sources@).skip(self.next as int),
            opened: self.opened,
            open_failed: self.open_failed,
            read_failed: self.read_failed,
        }
    }
}

impl Reader {
    /// The place in the list is in range.
    pub closed spec fn wf(&self) -> bool {
        self.next <= self.sources.len()
    }

    /// A chain over `sources`, with nothing done yet.
    pub fn new(sources: Vec<InputSource>) -> (r: Reader)
        ensures
            r.wf(),
            r@ == ChainState::start(sources_of(sources@)),
    {
        let r = Reader { sources, next: 0, opened: false, open_failed: false, read_failed: false };
        assert(r@.queue =~= sources_of(sources@));
        r
    }

    /// The status of the run so far, as the process is to report it.
    pub fn exit_code(&self) -> (code: i32)
        ensures
            code == self@.status(),
    {
        let open: i32 = if self.open_failed {
            1
        } else {
            0
        };
        let read: i32 = if self.read_failed {
            2
        } else {
            0
        };
        open + read
    }

    /// Whether `event` can come in this state.
    pub fn expects(&self, event: &Event) -> (b: bool)
        requires
            self.wf(),
        ensures
            b == self@.expects(event@),
    {
        if self.next >= self.sources.len() {
            return false;
        }
        let is_file = match &self.sources[self.next] {
            InputSource::File(_) => true,
            InputSource::Stdin => false,
        };
        proof {
            assert(self@.queue[0] == self.sources@[self.next as int]@);
        }
        match event {
            Event::Opened => is_file && !self.opened,
            Event::OpenFailed(_) => is_file && !self.opened,
            Event::Read(_) => self.opened,
            Event::ReadFailed(_) => self.opened,
        }
    }

    /// Whether the current source is standard input, not yet looked at.
    pub fn awaits_stdin(&self) -> (b: bool)
        requires
            self.wf(),
        ensures
            b == self@.awaits_stdin(),
    {
        if self.next >= self.sources.len() || self.opened {
            return false;
        }
        proof {
            assert(self@.queue[0] == self.sources@[self.next as int]@);
        }
        match &self.sources[self.next] {
            InputSource::File(_) => false,
            InputSource::Stdin => true,
        }
    }

    /// Moves on to the next source.
    fn drop_current(&mut self)
        requires
            old(self).wf(),
            old(self)@.queue.len() > 0,
        ensures
            final(self).wf(),
            final(self)@ == old(self)@.dropped(),
    {
        self.next = self.next + 1;
        self.opened = false;
        assert(self@.queue =~= old(self)@.queue.drop_first());
    }

    /// Says what to do next, given whether standard input is a terminal.
    /// Where standard input has just become current, it is looked at
    /// now: on a terminal it is passed over and the answer is `None`,
    /// which means to ask again; else it is to be read. In every other
    /// state nothing changes and `interactive` plays no part.
    pub fn advance(&mut self, interactive: bool) -> (action: Option<Action>)
        requires
            old(self).wf(),
        ensures
            final(self).wf(),
            old(self)@.awaits_stdin() ==> final(self)@ == old(self)@.admitted(interactive)
                && step_of(action) == if interactive {
                None::<Step>
            } else {
                Some(Step::ReadStdin)
            },
            !old(self)@.awaits_stdin() ==> final(self)@ == old(self)@ && step_of(action) == Some(
                old(self)@.step(),
            ),
    {
        if self.next >= self.sources.len() {
            return Some(Action::Finish);
        }
        proof {
            assert(self@.queue[0] == self.sources@[self.next as int]@);
        }
        match &self.sources[self.next] {
            InputSource::File(path) => {
                if self.opened {
                    Some(Action::ReadFile)
                } else {
                    Some(Action::Open(path.clone()))
                }
            },
            InputSource::Stdin => {
                if self.opened {
                    Some(Action::ReadStdin)
                } else if interactive {
                    self.drop_current();
                    None
                } else {
                    self.opened = true;
                    Some(Action::ReadStdin)
                }
            },
        }
    }

    /// Says what to do next. Each entry for standard input is looked at
    /// when it becomes current, and passed over if standard input is a
    /// terminal then; so the state may have moved past such entries, and
    /// past nothing else. The action is the one that the new state calls
    /// for.
    pub fn poll(&mut self) -> (action: Action)
        requires
            old(self).wf(),
        ensures
            final(self).wf(),
            old(self)@.looked_past(final(self)@),
            !final(self)@.awaits_stdin(),
            action@ == final(self)@.step(),
    {
        assert(self@.queue.skip(0) =~= self@.queue);
        loop
            invariant
                self.wf(),
                old(self)@.looked_past(self@),
            decreases self@.queue.len(),
        {
            let interactive = if self.awaits_stdin() {
                !stdin_is_redirected()
            } else {
                false
            };
            let ghost before = self@;
            let step = self.advance(interactive);
            proof {
                let k = old(self)@.queue.len() - before.queue.len();
                if before.awaits_stdin() && interactive {
                    assert(self@.queue =~= old(self)@.queue.skip(k + 1));
                    assert(old(self)@.queue[k] == before.queue[0]);
                }
            }
            match step {
                Some(action) => {
                    return action;
                },
                None => {},
            }
        }
    }

    /// Takes in what came of the last action. Returns the failure to
    /// report, if it was one. No failure ends the run: the source is
    /// done, and the chain goes on with the next.
    pub fn handle(&mut self, event: Event) -> (report: Option<CrabError>)
        requires
            old(self).wf(),
            old(self)@.expects(event@),
        ensures
            final(self).wf(),
            final(self)@ == old(self)@.after(event@),
            failure_of(report) == old(self)@.failure(event@),
    {
        proof {
            assert(self@.queue[0] == self.sources@[self.next as int]@);
        }
        match event {
            Event::Opened => {
                self.opened = true;
                None
            },
            Event::OpenFailed(error) => {
                let path = match &self.sources[self.next] {
                    InputSource::File(path) => path.clone(),
                    InputSource::Stdin => String::new(),
                };
                self.drop_current();
                self.open_failed = true;
                Some(CrabError::OpenError(path, error))
            },
            Event::Read(n) => {
                if n == 0 {
                    self.drop_current();
                }
                None
            },
            Event::ReadFailed(error) => {
                let source = self.sources[self.next].clone();
                self.drop_current();
                self.read_failed = true;
                Some(CrabError::ReadError(source, error))
            },
        }
    }
}

} // verus!
