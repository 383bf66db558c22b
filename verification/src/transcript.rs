//! What a whole run writes, stated in one piece, and the proof that a
//! session which is driven step by step writes exactly that.

use crate::lines::{text_lines_of, LineView};
use crate::report::{line_text, open_failure_text, parse_failure_text};
use crate::session::{SessionView, Stage, StepView};
use crate::source::{gunzipped, kind_of, opened, SourceKind};
use vstd::prelude::*;

verus! {

/// What the caller's side gives in the course of one run.
pub struct World {
    /// What reading the source at an index gives: its bytes, or the cause of
    /// the failure.
    pub read: spec_fn(nat) -> Result<Seq<u8>, Seq<char>>,
    /// What decoding a line gives, by the index of its source and its own
    /// index in that source: the JSON of the message, or nothing.
    pub decode: spec_fn(nat, nat) -> Option<Seq<char>>,
}

/// The lines a run writes, in order, each a `Print` or a `Warn`, and the
/// status it ends with.
pub struct Transcript {
    pub written: Seq<StepView>,
    pub code: i32,
}

impl Transcript {
    /// This transcript with `first` written before it.
    pub open spec fn after(self, first: Seq<StepView>) -> Transcript {
        Transcript { written: first + self.written, code: self.code }
    }
}

/// What is written for one line of a source: for a line that can be a
/// message, what its decoding calls for; for any other, the notice that it
/// could not be parsed.
pub open spec fn line_written(world: World, source: nat, n: nat, line: LineView) -> StepView {
    StepView::Print {
        text: if line.is_candidate() {
            line_text(n, line.text, (world.decode)(source, n))
        } else {
            parse_failure_text(n, line.text)
        },
    }
}

/// What is written for the lines of a source from index `from` on: one line
/// each, in order.
pub open spec fn lines_written(world: World, source: nat, lines: Seq<LineView>, from: nat) -> Seq<
    StepView,
> {
    Seq::new(
        (lines.len() - from) as nat,
        |i: int| line_written(world, source, (from + i) as nat, lines[from + i]),
    )
}

/// What a run writes from the source at index `from` on.
///
/// A source that cannot be read costs one warning and is skipped. A source
/// whose bytes have no content, a gzip source that does not inflate, ends
/// the run with status 1 after one warning that gives the reason. Any other
/// source has one line written for each of its lines. A run that comes to the
/// end of its sources ends with status 0.
pub open spec fn run_from(files: Seq<Seq<char>>, world: World, from: nat) -> Transcript
    decreases files.len() - from,
{
    if from >= files.len() {
        Transcript { written: seq![], code: 0 }
    } else {
        let name = files[from as int];
        match (world.read)(from) {
            Err(cause) => run_from(files, world, from + 1).after(
                seq![StepView::Warn { text: open_failure_text(name, cause) }],
            ),
            Ok(raw) => match opened(name, raw) {
                Err(reason) => Transcript {
                    written: seq![StepView::Warn { text: reason }],
                    code: 1,
                },
                Ok(content) => run_from(files, world, from + 1).after(
                    lines_written(world, from, text_lines_of(content), 0),
                ),
            },
        }
    }
}

/// What a run over `files` writes.
pub open spec fn transcript(files: Seq<Seq<char>>, world: World) -> Transcript {
    run_from(files, world, 0)
}

/// What a caller records who polls a session at most `fuel` times, answers
/// each request from `world`, and writes each line it is handed.
pub open spec fn driven(v: SessionView, world: World, fuel: nat) -> Option<Transcript>
    decreases fuel,
{
    if fuel == 0 {
        None
    } else {
        let (next, step) = v.poll();
        match step {
            StepView::Read { .. } => driven(
                next.source((world.read)(next.cursor)),
                world,
                (fuel - 1) as nat,
            ),
            StepView::Decode { .. } => driven(
                next.decoded((world.decode)(next.cursor, next.line)),
                world,
                (fuel - 1) as nat,
            ),
            StepView::Exit { code } => Some(Transcript { written: seq![], code }),
            _ => match driven(next, world, (fuel - 1) as nat) {
                Some(rest) => Some(rest.after(seq![step])),
                None => None,
            },
        }
    }
}

/// What remains to be written from a given session on.
pub open spec fn remaining(v: SessionView, world: World) -> Transcript {
    let body = match v.stage {
        Stage::Idle | Stage::AwaitingSource => run_from(v.files, world, v.cursor),
        Stage::Scanning | Stage::AwaitingDecode => run_from(v.files, world, v.cursor + 1).after(
            lines_written(world, v.cursor, v.lines, v.line),
        ),
        Stage::Finished => Transcript { written: seq![], code: v.code },
    };
    match v.queued {
        Some(step) => body.after(seq![step]),
        None => body,
    }
}

/// The order in which the stages of one source follow each other, counted
/// down.
pub open spec fn stage_rank(stage: Stage) -> int {
    match stage {
        Stage::Idle | Stage::AwaitingSource => 2,
        Stage::Scanning | Stage::AwaitingDecode => 1,
        Stage::Finished => 0,
    }
}

/// What is written for the lines from `from` on is what is written for the
/// line at `from`, then for those after it.
pub proof fn lemma_lines_written_step(world: World, source: nat, lines: Seq<LineView>, from: nat)
    requires
        from < lines.len(),
    ensures
        lines_written(world, source, lines, from) == seq![
            line_written(world, source, from, lines[from as int]),
        ] + lines_written(world, source, lines, from + 1),
{
    assert(lines_written(world, source, lines, from) =~= seq![
        line_written(world, source, from, lines[from as int]),
    ] + lines_written(world, source, lines, from + 1));
}

/// Once the request for a source is answered, what remains to be written is
/// what the run writes from that source on.
pub proof fn lemma_source_answered(v: SessionView, world: World)
    requires
        v.wf(),
        v.stage == Stage::AwaitingSource,
        v.queued is None,
    ensures
        remaining(v.source((world.read)(v.cursor)), world) == run_from(v.files, world, v.cursor),
{
    let name = v.files[v.cursor as int];
    match (world.read)(v.cursor) {
        Err(cause) => {},
        Ok(raw) => {
            match opened(name, raw) {
                Err(reason) => {
                    assert(seq![StepView::Warn { text: reason }] + Seq::<StepView>::empty()
                        =~= seq![StepView::Warn { text: reason }]);
                },
                Ok(content) => {},
            }
        },
    }
}

/// Once the request for a line is answered, what remains to be written is
/// what remained before.
pub proof fn lemma_decode_answered(v: SessionView, world: World)
    requires
        v.wf(),
        v.stage == Stage::AwaitingDecode,
        v.queued is None,
    ensures
        remaining(v.decoded((world.decode)(v.cursor, v.line)), world) == remaining(v, world),
{
    lemma_lines_written_step(world, v.cursor, v.lines, v.line);
    let rest = run_from(v.files, world, v.cursor + 1);
    let first = line_written(world, v.cursor, v.line, v.lines[v.line as int]);
    let later = lines_written(world, v.cursor, v.lines, v.line + 1);
    assert(seq![first] + (later + rest.written) =~= (seq![first] + later) + rest.written);
}

/// A caller who polls a well-formed session often enough, answers each
/// request from `world` and writes each line it is handed, has written what
/// remained to be written, and ends with its status. The result is a number
/// of polls that is enough.
pub proof fn lemma_driven(v: SessionView, world: World) -> (fuel: nat)
    requires
        v.wf(),
    ensures
        driven(v, world, fuel) == Some(remaining(v, world)),
    decreases
        v.files.len() - v.cursor,
        stage_rank(v.stage),
        v.lines.len() - v.line,
        (if v.queued is Some { 1int } else { 0int }),
{
    let (next, step) = v.poll();
    if v.queued is Some {
        let rest = lemma_driven(next, world);
        assert(driven(v, world, rest + 1) == Some(remaining(v, world)));
        rest + 1
    } else {
        match v.stage {
            Stage::Idle | Stage::AwaitingSource => {
                if v.cursor < v.files.len() {
                    lemma_source_answered(next, world);
                    let answered = next.source((world.read)(next.cursor));
                    let rest = lemma_driven(answered, world);
                    assert(driven(v, world, rest + 1) == Some(remaining(v, world)));
                    rest + 1
                } else {
                    assert(driven(v, world, 1) == Some(remaining(v, world)));
                    1
                }
            },
            Stage::Scanning | Stage::AwaitingDecode => {
                if v.line < v.lines.len() {
                    if v.lines[v.line as int].is_candidate() {
                        lemma_decode_answered(next, world);
                        let answered = next.decoded((world.decode)(next.cursor, next.line));
                        let rest = lemma_driven(answered, world);
                        assert(driven(v, world, rest + 1) == Some(remaining(v, world)));
                        rest + 1
                    } else {
                        lemma_lines_written_step(world, v.cursor, v.lines, v.line);
                        let rest = lemma_driven(next, world);
                        let tail = run_from(v.files, world, v.cursor + 1);
                        let later = lines_written(world, v.cursor, v.lines, v.line + 1);
                        assert(seq![step] + (later + tail.written) =~= (seq![step] + later)
                            + tail.written);
                        assert(driven(v, world, rest + 1) == Some(remaining(v, world)));
                        rest + 1
                    }
                } else {
                    let tail = run_from(v.files, world, v.cursor + 1);
                    assert(lines_written(world, v.cursor, v.lines, v.line) + tail.written
                        =~= tail.written);
                    if v.cursor + 1 < v.files.len() {
                        lemma_source_answered(next, world);
                        let answered = next.source((world.read)(next.cursor));
                        let rest = lemma_driven(answered, world);
                        assert(driven(v, world, rest + 1) == Some(remaining(v, world)));
                        rest + 1
                    } else {
                        assert(driven(v, world, 1) == Some(remaining(v, world)));
                        1
                    }
                }
            },
            Stage::Finished => {
                assert(driven(v, world, 1) == Some(remaining(v, world)));
                1
            },
        }
    }
}

/// A caller who has come to the end keeps what it recorded, however often
/// it was prepared to poll.
pub proof fn lemma_driven_stable(v: SessionView, world: World, fuel: nat, more: nat)
    requires
        driven(v, world, fuel) is Some,
        fuel <= more,
    ensures
        driven(v, world, more) == driven(v, world, fuel),
    decreases fuel,
{
    let (next, step) = v.poll();
    match step {
        StepView::Read { .. } => {
            lemma_driven_stable(
                next.source((world.read)(next.cursor)),
                world,
                (fuel - 1) as nat,
                (more - 1) as nat,
            );
        },
        StepView::Decode { .. } => {
            lemma_driven_stable(
                next.decoded((world.decode)(next.cursor, next.line)),
                world,
                (fuel - 1) as nat,
                (more - 1) as nat,
            );
        },
        StepView::Exit { .. } => {},
        _ => {
            lemma_driven_stable(next, world, (fuel - 1) as nat, (more - 1) as nat);
        },
    }
}

/// A run that is carried out step by step comes to its end: whatever reading
/// and decoding give, some number of polls is enough for the session over
/// `files` to tell its caller to exit.
pub proof fn law_run_ends(files: Seq<Seq<char>>, world: World)
    ensures
        exists|fuel: nat| driven(SessionView::start(files), world, fuel) is Some,
{
    let fuel = lemma_driven(SessionView::start(files), world);
    assert(driven(SessionView::start(files), world, fuel) is Some);
}

/// What a run writes is determined by its sources and by what reading and
/// decoding give: a caller who starts a session over `files`, answers each
/// request from `world`, writes each line it is handed and is told to exit,
/// has written `transcript(files, world)` and exits with its status. Two
/// such runs write the same, line for line.
pub proof fn law_run_is_determined(files: Seq<Seq<char>>, world: World, fuel: nat)
    requires
        driven(SessionView::start(files), world, fuel) is Some,
    ensures
        driven(SessionView::start(files), world, fuel) == Some(transcript(files, world)),
{
    let start = SessionView::start(files);
    let enough = lemma_driven(start, world);
    if fuel <= enough {
        lemma_driven_stable(start, world, fuel, enough);
    } else {
        lemma_driven_stable(start, world, enough, fuel);
    }
}

/// A source that cannot be read costs one warning, which names it and gives
/// the cause, and the run goes on with the next source as if the unreadable
/// one had not been named.
pub proof fn law_unreadable_source_is_skipped(
    files: Seq<Seq<char>>,
    world: World,
    i: nat,
    cause: Seq<char>,
)
    requires
        i < files.len(),
        (world.read)(i) == Err::<Seq<u8>, Seq<char>>(cause),
    ensures
        run_from(files, world, i) == run_from(files, world, i + 1).after(
            seq![StepView::Warn { text: open_failure_text(files[i as int], cause) }],
        ),
{
}

/// A gzip source whose bytes do not inflate ends the run: one warning gives
/// the decoder's reason, nothing is written to standard output for that
/// source or any after it, and the status is 1.
pub proof fn law_broken_gzip_ends_run(
    files: Seq<Seq<char>>,
    world: World,
    i: nat,
    raw: Seq<u8>,
    reason: Seq<char>,
)
    requires
        i < files.len(),
        kind_of(files[i as int]) == SourceKind::Gzip,
        (world.read)(i) == Ok::<Seq<u8>, Seq<char>>(raw),
        gunzipped(raw) == Err::<Seq<u8>, Seq<char>>(reason),
    ensures
        run_from(files, world, i) == (Transcript {
            written: seq![StepView::Warn { text: reason }],
            code: 1,
        }),
{
}

/// A source with content has one line written to standard output for each of
/// its lines, in order, before anything of the sources after it, and leaves
/// the status to them. A line that is empty, that is no text, or that the
/// decoder could not parse has the notice written that gives its number and
/// its text; any other has its JSON written.
pub proof fn law_one_line_for_each_line(
    files: Seq<Seq<char>>,
    world: World,
    i: nat,
    raw: Seq<u8>,
    content: Seq<u8>,
    n: nat,
)
    requires
        i < files.len(),
        (world.read)(i) == Ok::<Seq<u8>, Seq<char>>(raw),
        opened(files[i as int], raw) == Ok::<Seq<u8>, Seq<char>>(content),
        n < text_lines_of(content).len(),
    ensures
        run_from(files, world, i).written.len() == text_lines_of(content).len() + run_from(
            files,
            world,
            i + 1,
        ).written.len(),
        run_from(files, world, i).code == run_from(files, world, i + 1).code,
        run_from(files, world, i).written[n as int] == line_written(
            world,
            i,
            n,
            text_lines_of(content)[n as int],
        ),
        ({
            let line = text_lines_of(content)[n as int];
            let text = run_from(files, world, i).written[n as int]->Print_text;
            if line.is_candidate() && (world.decode)(i, n) is Some {
                text == (world.decode)(i, n)->Some_0
            } else {
                text == parse_failure_text(n, line.text)
            }
        }),
{
}

/// Whether the source at index `i` was read and has no content.
pub open spec fn is_broken(files: Seq<Seq<char>>, world: World, i: nat) -> bool {
    match (world.read)(i) {
        Ok(raw) => opened(files[i as int], raw) is Err,
        Err(_) => false,
    }
}

/// A run ends with status 0 or 1, and with 1 exactly where a source that was
/// read has no content: lines that cannot be parsed and sources that cannot
/// be read leave the status at 0.
pub proof fn law_status(files: Seq<Seq<char>>, world: World, from: nat)
    ensures
        run_from(files, world, from).code == 0 || run_from(files, world, from).code == 1,
        run_from(files, world, from).code == 1 <==> exists|i: nat|
            from <= i < files.len() && #[trigger] is_broken(files, world, i),
    decreases files.len() - from,
{
    if from < files.len() {
        law_status(files, world, from + 1);
        if is_broken(files, world, from) {
        } else if run_from(files, world, from).code == 1 {
            let i = choose|i: nat| from + 1 <= i < files.len() && #[trigger] is_broken(files, world, i);
            assert(from <= i < files.len() && is_broken(files, world, i));
        } else {
            assert forall|i: nat| from <= i < files.len() implies !#[trigger] is_broken(
                files,
                world,
                i,
            ) by {
                if i > from {
                    assert(from + 1 <= i);
                }
            }
        }
    }
}

} // verus!
