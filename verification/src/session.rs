//! The course of a run, as a machine that is asked for the next step and
//! told what reading and decoding gave.
//!
//! A caller polls a `Session` for a [`Step`], performs it, and reports back
//! where the step asks for something: the bytes of a source after
//! [`Step::Read`], the JSON of a message after [`Step::Decode`]. The session
//! itself never reads, decodes or prints.

use crate::config::Config;
use crate::lines::{read_lines, text_lines, text_lines_of, Line, LineView};
use crate::report::{
    decoded_view, line_output, line_text, open_failure, open_failure_text, parse_failure,
    parse_failure_text,
};
use crate::source::{content_view, kind_of, open, opened, source_kind, SourceKind};
use vstd::prelude::*;

verus! {

/// Where a session stands.
#[derive(Clone, Copy, Debug, PartialEq, Eq, Structural)]
pub enum Stage {
    /// Between two sources.
    Idle,
    /// The bytes of the current source have been asked for.
    AwaitingSource,
    /// Inside the current source, before its next line.
    Scanning,
    /// The decoding of the current line has been asked for.
    AwaitingDecode,
    /// The run is over.
    Finished,
}

/// What the caller is to do next.
#[derive(Debug)]
pub enum Step {
    /// Read all bytes of the named source, standard input where `kind` says
    /// so, and report them with [`Session::source`].
    Read { name: String, kind: SourceKind },
    /// Decode this line as a FIX message and report the JSON, or its absence,
    /// with [`Session::decoded`].
    Decode { line: String },
    /// Write this line to standard output.
    Print { text: String },
    /// Write this line to standard error.
    Warn { text: String },
    /// End the process with this status.
    Exit { code: i32 },
}

/// The mathematical value of a `Step`.
pub enum StepView {
    Read { name: Seq<char>, kind: SourceKind },
    Decode { line: Seq<char> },
    Print { text: Seq<char> },
    Warn { text: Seq<char> },
    Exit { code: i32 },
}

impl View for Step {
    type V = StepView;

    open spec fn view(&self) -> StepView {
        match self {
            Step::Read { name, kind } => StepView::Read { name: name@, kind: *kind },
            Step::Decode { line } => StepView::Decode { line: line@ },
            Step::Print { text } => StepView::Print { text: text@ },
            Step::Warn { text } => StepView::Warn { text: text@ },
            Step::Exit { code } => StepView::Exit { code: *code },
        }
    }
}

/// The mathematical value of a `Session`.
pub struct SessionView {
    /// The sources of the run, in order.
    pub files: Seq<Seq<char>>,
    /// The index of the current source; all before it are done.
    pub cursor: nat,
    /// The lines of the current source.
    pub lines: Seq<LineView>,
    /// The index of the current line; all before it are done.
    pub line: nat,
    pub stage: Stage,
    /// A line that is written before anything else happens.
    pub queued: Option<StepView>,
    /// The status the process ends with.
    pub code: i32,
}

impl SessionView {
    /// What holds of every session.
    pub open spec fn wf(self) -> bool {
        &&& self.cursor <= self.files.len()
        &&& self.line <= self.lines.len()
        &&& self.stage != Stage::Idle && self.stage != Stage::Finished ==> self.cursor
            < self.files.len()
        &&& self.stage == Stage::AwaitingDecode ==> self.line < self.lines.len()
            && self.lines[self.line as int].is_candidate()
        &&& self.stage == Stage::Idle || self.stage == Stage::AwaitingSource || self.stage
            == Stage::Finished ==> self.lines.len() == 0
        &&& self.queued matches Some(step) ==> step is Print || step is Warn
        &&& self.code == 0 || self.code == 1
        &&& self.code == 1 ==> self.stage == Stage::Finished
    }

    /// The session at the start of a run over `files`.
    pub open spec fn start(files: Seq<Seq<char>>) -> SessionView {
        SessionView {
            files,
            cursor: 0,
            lines: seq![],
            line: 0,
            stage: Stage::Idle,
            queued: None,
            code: 0,
        }
    }

    /// The request for the current source.
    pub open spec fn read_step(self) -> StepView {
        StepView::Read {
            name: self.files[self.cursor as int],
            kind: kind_of(self.files[self.cursor as int]),
        }
    }

    /// The request for the current line.
    pub open spec fn decode_step(self) -> StepView {
        StepView::Decode { line: self.lines[self.line as int].text }
    }

    /// Between two sources: ask for the next one, or end the run when none is
    /// left.
    pub open spec fn advance(self) -> (SessionView, StepView) {
        if self.cursor < self.files.len() {
            (SessionView { stage: Stage::AwaitingSource, ..self }, self.read_step())
        } else {
            (SessionView { stage: Stage::Finished, ..self }, StepView::Exit { code: self.code })
        }
    }

    /// The session after the current source, before the next.
    pub open spec fn leave_source(self) -> SessionView {
        SessionView {
            cursor: self.cursor + 1,
            lines: seq![],
            line: 0,
            stage: Stage::Idle,
            ..self
        }
    }

    /// The next step, and the session after it was handed out.
    ///
    /// A queued line comes first. A pending request is repeated until it is
    /// answered. Inside a source, a line that can be a message is handed out
    /// for decoding; an empty line, or one that is no text, is answered at
    /// once with the notice for a line that could not be parsed.
    pub open spec fn poll(self) -> (SessionView, StepView) {
        if let Some(step) = self.queued {
            (SessionView { queued: None, ..self }, step)
        } else {
            match self.stage {
                Stage::Idle => self.advance(),
                Stage::AwaitingSource => (self, self.read_step()),
                Stage::Scanning => {
                    if self.line < self.lines.len() {
                        let current = self.lines[self.line as int];
                        if current.is_candidate() {
                            (
                                SessionView { stage: Stage::AwaitingDecode, ..self },
                                self.decode_step(),
                            )
                        } else {
                            (
                                SessionView { line: self.line + 1, ..self },
                                StepView::Print {
                                    text: parse_failure_text(self.line, current.text),
                                },
                            )
                        }
                    } else {
                        self.leave_source().advance()
                    }
                },
                Stage::AwaitingDecode => (self, self.decode_step()),
                Stage::Finished => (self, StepView::Exit { code: self.code }),
            }
        }
    }

    /// The session after the content of the current source, or the reason why
    /// it has none, became known. A source without content ends the run with
    /// status 1, after its reason was written as a warning.
    pub open spec fn content(self, content: Result<Seq<u8>, Seq<char>>) -> SessionView {
        if self.stage != Stage::AwaitingSource {
            self
        } else {
            match content {
                Ok(bytes) => SessionView {
                    lines: text_lines_of(bytes),
                    line: 0,
                    stage: Stage::Scanning,
                    ..self
                },
                Err(reason) => SessionView {
                    stage: Stage::Finished,
                    queued: Some(StepView::Warn { text: reason }),
                    code: 1,
                    ..self
                },
            }
        }
    }

    /// The session after reading the current source gave `read`: its bytes,
    /// or the cause of the failure. A source that could not be read is
    /// skipped, after a warning that names it.
    pub open spec fn source(self, read: Result<Seq<u8>, Seq<char>>) -> SessionView {
        if self.stage != Stage::AwaitingSource {
            self
        } else {
            let name = self.files[self.cursor as int];
            match read {
                Ok(raw) => self.content(opened(name, raw)),
                Err(cause) => SessionView {
                    queued: Some(StepView::Warn { text: open_failure_text(name, cause) }),
                    ..self.leave_source()
                },
            }
        }
    }

    /// The session after decoding the current line gave `decoded`: the JSON
    /// of the message, or nothing where the line is no message. Either way
    /// one line is queued for standard output and the run goes on.
    pub open spec fn decoded(self, decoded: Option<Seq<char>>) -> SessionView {
        if self.stage != Stage::AwaitingDecode {
            self
        } else {
            SessionView {
                line: self.line + 1,
                stage: Stage::Scanning,
                queued: Some(
                    StepView::Print {
                        text: line_text(self.line, self.lines[self.line as int].text, decoded),
                    },
                ),
                ..self
            }
        }
    }
}

/// Polling keeps a session well formed.
pub proof fn law_poll_keeps_wf(v: SessionView)
    requires
        v.wf(),
    ensures
        v.poll().0.wf(),
{
}

/// Reporting a source keeps a session well formed.
pub proof fn law_source_keeps_wf(v: SessionView, read: Result<Seq<u8>, Seq<char>>)
    requires
        v.wf(),
    ensures
        v.source(read).wf(),
{
}

/// Reporting a content keeps a session well formed.
pub proof fn law_content_keeps_wf(v: SessionView, content: Result<Seq<u8>, Seq<char>>)
    requires
        v.wf(),
    ensures
        v.content(content).wf(),
{
}

/// Reporting a decoding keeps a session well formed.
pub proof fn law_decoded_keeps_wf(v: SessionView, decoded: Option<Seq<char>>)
    requires
        v.wf(),
    ensures
        v.decoded(decoded).wf(),
{
}

/// A run in progress.
#[derive(Debug)]
pub struct Session {
    files: Vec<String>,
    cursor: usize,
    lines: Vec<Line>,
    line: usize,
    stage: Stage,
    queued: Option<Step>,
    code: i32,
}

impl View for Session {
    type V = SessionView;

    closed spec fn view(&self) -> SessionView {
        SessionView {
            files: self.files.deep_view(),
            cursor: self.cursor as nat,
            lines: text_lines(self.lines@),
            line: self.line as nat,
            stage: self.stage,
            queued: match self.queued {
                Some(step) => Some(step@),
                None => None,
            },
            code: self.code,
        }
    }
}

/// Starts a run over the sources of `config`.
pub fn run(config: Config) -> (session: Session)
    ensures
        session@ == SessionView::start(config@),
{
    let files = config.into_files();
    assert(text_lines(Seq::<Line>::empty()) =~= Seq::<LineView>::empty());
    Session {
        files,
        cursor: 0,
        lines: Vec::new(),
        line: 0,
        stage: Stage::Idle,
        queued: None,
        code: 0,
    }
}

impl Session {
    #[verifier::type_invariant]
    spec fn well_formed(self) -> bool {
        self@.wf()
    }

    fn read_step(&self) -> (step: Step)
        requires
            self.cursor < self.files.len(),
        ensures
            step@ == self@.read_step(),
    {
        let name = self.files[self.cursor].clone();
        let kind = source_kind(name.as_str());
        Step::Read { name, kind }
    }

    fn decode_step(&self) -> (step: Step)
        requires
            self.line < self.lines.len(),
        ensures
            step@ == self@.decode_step(),
    {
        Step::Decode { line: self.lines[self.line].text.clone() }
    }

    fn advance(self) -> (next: (Session, Step))
        requires
            self.queued is None,
            self.stage == Stage::Idle,
        ensures
            (next.0@, next.1@) == self@.advance(),
    {
        proof {
            use_type_invariant(&self);
        }
        if self.cursor < self.files.len() {
            let step = self.read_step();
            (Session { stage: Stage::AwaitingSource, ..self }, step)
        } else {
            let code = self.code;
            (Session { stage: Stage::Finished, ..self }, Step::Exit { code })
        }
    }

    fn leave_source(self) -> (next: Session)
        requires
            self.cursor < self.files.len(),
            self.stage != Stage::Finished,
        ensures
            next@ == self@.leave_source(),
    {
        proof {
            use_type_invariant(&self);
            assert(text_lines(Seq::<Line>::empty()) =~= Seq::<LineView>::empty());
        }
        Session {
            cursor: self.cursor + 1,
            lines: Vec::new(),
            line: 0,
            stage: Stage::Idle,
            ..self
        }
    }

    /// Hands out the next step, and the session after it.
    pub fn poll(self) -> (next: (Session, Step))
        ensures
            (next.0@, next.1@) == self@.poll(),
    {
        proof {
            use_type_invariant(&self);
        }
        if self.queued.is_some() {
            let Session { files, cursor, lines, line, stage, queued, code } = self;
            return (
                Session { files, cursor, lines, line, stage, queued: None, code },
                queued.unwrap(),
            );
        }
        match self.stage {
            Stage::Idle => self.advance(),
            Stage::AwaitingSource => {
                let step = self.read_step();
                (self, step)
            },
            Stage::Scanning => {
                if self.line < self.lines.len() {
                    if self.lines[self.line].decodable
                        && !self.lines[self.line].text.as_str().is_empty() {
                        let step = self.decode_step();
                        (Session { stage: Stage::AwaitingDecode, ..self }, step)
                    } else {
                        let text = parse_failure(self.line, self.lines[self.line].text.as_str());
                        (Session { line: self.line + 1, ..self }, Step::Print { text })
                    }
                } else {
                    self.leave_source().advance()
                }
            },
            Stage::AwaitingDecode => {
                let step = self.decode_step();
                (self, step)
            },
            Stage::Finished => {
                let code = self.code;
                (self, Step::Exit { code })
            },
        }
    }

    /// Takes the content of the current source, or the reason why it has
    /// none.
    pub fn content(self, content: Result<Vec<u8>, String>) -> (next: Session)
        ensures
            next@ == self@.content(content_view(content)),
    {
        proof {
            use_type_invariant(&self);
        }
        if self.stage == Stage::AwaitingSource {
            match content {
                Ok(bytes) => Session {
                    lines: read_lines(&bytes),
                    line: 0,
                    stage: Stage::Scanning,
                    ..self
                },
                Err(reason) => Session {
                    stage: Stage::Finished,
                    queued: Some(Step::Warn { text: reason }),
                    code: 1,
                    ..self
                },
            }
        } else {
            self
        }
    }

    /// Takes what reading the current source gave: its bytes, or the cause of
    /// the failure.
    pub fn source(self, read: Result<Vec<u8>, String>) -> (next: Session)
        ensures
            next@ == self@.source(content_view(read)),
    {
        proof {
            use_type_invariant(&self);
        }
        if self.stage == Stage::AwaitingSource {
            match read {
                Ok(raw) => {
                    let content = open(self.files[self.cursor].as_str(), raw);
                    self.content(content)
                },
                Err(cause) => {
                    let text = open_failure(self.files[self.cursor].as_str(), cause.as_str());
                    let left = self.leave_source();
                    Session { queued: Some(Step::Warn { text }), ..left }
                },
            }
        } else {
            self
        }
    }

    /// Takes what decoding the current line gave: the JSON of the message, or
    /// nothing where the line is no message.
    pub fn decoded(self, decoded: Option<String>) -> (next: Session)
        ensures
            next@ == self@.decoded(decoded_view(decoded)),
    {
        proof {
            use_type_invariant(&self);
        }
        if self.stage == Stage::AwaitingDecode {
            assert(self.line < self.lines.len());
            let text = line_output(self.line, self.lines[self.line].text.as_str(), decoded);
            Session {
                line: self.line + 1,
                stage: Stage::Scanning,
                queued: Some(Step::Print { text }),
                ..self
            }
        } else {
            self
        }
    }
}

} // verus!
