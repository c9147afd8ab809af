//! The console session: classifies lines and, inside a status block, hands
//! them to the block's parser, turning the stream's lines into events.
use vstd::prelude::*;

use crate::classify::{classify_line, classify_trimmed, LineClass, LineModel};
use crate::event::{Event, EventModel};
use crate::status::{
    progress_start, progress_step, Status, StatusParser, StatusProgress, StatusStep, StepModel,
};
use crate::text::trim;

verus! {

pub open spec fn events_view(v: Seq<Event>) -> Seq<EventModel> {
    v.map_values(|e: Event| e.model())
}

/// What one line does: the block in progress afterwards, and the events it yields.
pub open spec fn line_events(block: Option<StatusProgress>, line: Seq<char>) -> (
    Option<StatusProgress>,
    Seq<EventModel>,
) {
    match block {
        Some(p) => match progress_step(p, trim(line)) {
            StepModel::Continue(q) => (Some(q), Seq::empty()),
            StepModel::Finished(Ok(m)) => (None, seq![EventModel::Status(Some(m))]),
            StepModel::Finished(Err(_)) => (None, Seq::empty()),
        },
        None => match classify_trimmed(trim(line)) {
            LineModel::StatusBlock(h) => (Some(progress_start(h)), Seq::empty()),
            LineModel::Emit(e) => (None, seq![e]),
            LineModel::EmitTwo(a, b) => (None, seq![a, b]),
            _ => (None, Seq::empty()),
        },
    }
}

/// Reads the console's lines in order, one at a time.
pub struct ConsoleParser {
    block: Option<StatusParser>,
}

impl View for ConsoleParser {
    type V = Option<StatusProgress>;

    closed spec fn view(&self) -> Option<StatusProgress> {
        match self.block {
            Some(p) => Some(p@),
            None => None,
        }
    }
}

impl ConsoleParser {
    pub closed spec fn wf(&self) -> bool {
        match self.block {
            Some(p) => p.wf(),
            None => true,
        }
    }

    pub fn new() -> (r: ConsoleParser)
        ensures
            r.wf(),
            r@ is None,
    {
        ConsoleParser { block: None }
    }

    /// Whether a status block is being read.
    pub fn in_status_block(&self) -> (r: bool)
        ensures
            r == self@ is Some,
    {
        self.block.is_some()
    }

    /// Takes the next line of the stream and returns the events it yields.
    pub fn feed_line(&mut self, line: &str) -> (r: Vec<Event>)
        requires
            old(self).wf(),
        ensures
            final(self).wf(),
            (final(self)@, events_view(r@)) == line_events(old(self)@, line@),
    {
        let mut out: Vec<Event> = Vec::new();
        let block = self.block.take();
        match block {
            Some(mut parser) => {
                match parser.feed(line) {
                    StatusStep::Pending => {
                        self.block = Some(parser);
                    },
                    StatusStep::Done(Ok(data)) => {
                        out.push(Event::Status(Status::Connected(data)));
                    },
                    StatusStep::Done(Err(_)) => {},
                }
            },
            None => {
                match classify_line(line) {
                    LineClass::StatusBlock(h) => {
                        self.block = Some(StatusParser::new(h));
                    },
                    LineClass::Emit(e) => {
                        out.push(e);
                    },
                    LineClass::EmitTwo(a, b) => {
                        out.push(a);
                        out.push(b);
                    },
                    LineClass::Nothing => {},
                    LineClass::Malformed => {},
                }
            },
        }
        assert(events_view(out@) =~= line_events(old(self)@, line@).1);
        out
    }
}

} // verus!
