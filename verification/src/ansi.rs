//! Turns the raw output of a child process, terminal control sequences and
//! all, into display lines: `\n` completes a line, `\r` and the CSI erase
//! commands start the current line over, and every other control or escape
//! sequence is dropped.
use vstd::prelude::*;
use crate::config::strings_view;
use crate::text::push_char;

verus! {

#[verifier::external_type_specification]
#[verifier::external_body]
pub struct ExParser<const OSC_RAW_BUF_SIZE: usize>(vte::Parser<OSC_RAW_BUF_SIZE>);

#[verifier::external_type_specification]
#[verifier::external_body]
pub struct ExParams(vte::Params);

/// One callback that the escape-sequence parser makes, with the arguments the
/// line logic reads.
#[derive(Clone, Copy, Debug, PartialEq, Eq, Structural)]
pub enum TerminalAction {
    /// A printable character.
    Print(char),
    /// A C0 or C1 control byte.
    Execute(u8),
    /// The final character of a CSI sequence.
    CsiDispatch(char),
    /// The final byte of an escape sequence.
    EscDispatch(u8),
    /// An operating system command.
    OscDispatch,
    /// The start of a device control string, with its final character.
    Hook(char),
    /// A byte of a device control string.
    Put(u8),
    /// The end of a device control string.
    Unhook,
}

/// Collects the parser's callbacks, in the order they are made.
pub struct ActionRecorder {
    pub actions: Vec<TerminalAction>,
}

impl vte::Perform for ActionRecorder {
    fn print(&mut self, c: char)
        ensures
            final(self).actions@ == old(self).actions@.push(TerminalAction::Print(c)),
    {
        self.actions.push(TerminalAction::Print(c));
    }

    fn execute(&mut self, byte: u8)
        ensures
            final(self).actions@ == old(self).actions@.push(TerminalAction::Execute(byte)),
    {
        self.actions.push(TerminalAction::Execute(byte));
    }

    fn hook(&mut self, _params: &vte::Params, _intermediates: &[u8], _ignore: bool, action: char)
        ensures
            final(self).actions@ == old(self).actions@.push(TerminalAction::Hook(action)),
    {
        self.actions.push(TerminalAction::Hook(action));
    }

    fn put(&mut self, byte: u8)
        ensures
            final(self).actions@ == old(self).actions@.push(TerminalAction::Put(byte)),
    {
        self.actions.push(TerminalAction::Put(byte));
    }

    fn unhook(&mut self)
        ensures
            final(self).actions@ == old(self).actions@.push(TerminalAction::Unhook),
    {
        self.actions.push(TerminalAction::Unhook);
    }

    fn osc_dispatch(&mut self, _params: &[&[u8]], _bell_terminated: bool)
        ensures
            final(self).actions@ == old(self).actions@.push(TerminalAction::OscDispatch),
    {
        self.actions.push(TerminalAction::OscDispatch);
    }

    fn csi_dispatch(
        &mut self,
        _params: &vte::Params,
        _intermediates: &[u8],
        _ignore: bool,
        action: char,
    )
        ensures
            final(self).actions@ == old(self).actions@.push(TerminalAction::CsiDispatch(action)),
    {
        self.actions.push(TerminalAction::CsiDispatch(action));
    }

    fn esc_dispatch(&mut self, _intermediates: &[u8], _ignore: bool, byte: u8)
        ensures
            final(self).actions@ == old(self).actions@.push(TerminalAction::EscDispatch(byte)),
    {
        self.actions.push(TerminalAction::EscDispatch(byte));
    }
}

/// The callbacks that `vte::Parser::advance` makes, in order, when a parser in
/// state `parser` is fed `bytes`.
pub uninterp spec fn vte_actions(parser: vte::Parser, bytes: Seq<u8>) -> Seq<TerminalAction>;

/// The state that `vte::Parser::advance` leaves a parser in, when a parser in
/// state `parser` is fed `bytes`: the escape sequence or UTF-8 character it was
/// in the middle of, if any.
pub uninterp spec fn vte_parser_after(parser: vte::Parser, bytes: Seq<u8>) -> vte::Parser;

/// `vte::Parser::advance` fed `bytes`, with a performer that records each
/// callback. The contract names the recorded callbacks and the parser's new
/// state, each as a function of the parser's old state and the bytes; what
/// those functions are is not spelled out.
#[verifier::external_body]
fn advance_parser(parser: &mut vte::Parser, bytes: &[u8]) -> (actions: Vec<TerminalAction>)
    ensures
        actions@ == vte_actions(*old(parser), bytes@),
        *final(parser) == vte_parser_after(*old(parser), bytes@),
{
    let mut recorder = ActionRecorder { actions: Vec::new() };
    parser.advance(&mut recorder, bytes);
    recorder.actions
}

/// `vte::Parser::new`: a parser in its ground state. The parser is opaque, so
/// nothing is stated of it.
#[verifier::external_body]
fn new_parser() -> (p: vte::Parser) {
    vte::Parser::new()
}

/// The line being written and the lines completed so far, after one action.
pub open spec fn apply_action(buffer: Seq<char>, completed: Seq<Seq<char>>, a: TerminalAction) -> (
    Seq<char>,
    Seq<Seq<char>>,
) {
    match a {
        TerminalAction::Print(c) => (buffer.push(c), completed),
        TerminalAction::Execute(b) => if b == 0x0a {
            (Seq::empty(), completed.push(buffer))
        } else if b == 0x0d {
            (Seq::empty(), completed)
        } else if b == 0x09 {
            (buffer.push('\t'), completed)
        } else {
            (buffer, completed)
        },
        TerminalAction::CsiDispatch(c) => if c == 'K' || c == 'J' {
            (Seq::empty(), completed)
        } else {
            (buffer, completed)
        },
        _ => (buffer, completed),
    }
}

/// The line being written and the lines completed, after the actions `acts`
/// in order.
pub open spec fn apply_actions(
    buffer: Seq<char>,
    completed: Seq<Seq<char>>,
    acts: Seq<TerminalAction>,
) -> (Seq<char>, Seq<Seq<char>>)
    decreases acts.len(),
{
    if acts.len() == 0 {
        (buffer, completed)
    } else {
        let prev = apply_actions(buffer, completed, acts.drop_last());
        apply_action(prev.0, prev.1, acts.last())
    }
}

/// The number of line feeds (`\n` executed) among `acts`.
pub open spec fn newline_count(acts: Seq<TerminalAction>) -> nat
    decreases acts.len(),
{
    if acts.len() == 0 {
        0
    } else {
        newline_count(acts.drop_last()) + if acts.last() == TerminalAction::Execute(0x0a) {
            1nat
        } else {
            0nat
        }
    }
}

/// Feeding actions in two parts gives what feeding them at once gives: how
/// the output is cut into chunks does not change the lines.
pub proof fn lemma_apply_actions_split(
    buffer: Seq<char>,
    completed: Seq<Seq<char>>,
    a: Seq<TerminalAction>,
    b: Seq<TerminalAction>,
)
    ensures
        apply_actions(buffer, completed, a + b) == ({
            let mid = apply_actions(buffer, completed, a);
            apply_actions(mid.0, mid.1, b)
        }),
    decreases b.len(),
{
    if b.len() == 0 {
        assert(a + b =~= a);
    } else {
        lemma_apply_actions_split(buffer, completed, a, b.drop_last());
        assert((a + b).drop_last() =~= a + b.drop_last());
        assert((a + b).last() == b.last());
    }
}

/// The characters that the actions `acts` print, in order.
pub open spec fn printed_text(acts: Seq<TerminalAction>) -> Seq<char>
    decreases acts.len(),
{
    if acts.len() == 0 {
        Seq::empty()
    } else {
        let rest = printed_text(acts.drop_last());
        match acts.last() {
            TerminalAction::Print(c) => rest.push(c),
            _ => rest,
        }
    }
}

/// A printed character goes at the end of the current line, whatever it is,
/// and no line is completed.
pub proof fn lemma_print_appends(buffer: Seq<char>, completed: Seq<Seq<char>>, ch: char)
    ensures
        apply_actions(buffer, completed, seq![TerminalAction::Print(ch)]) == (buffer.push(ch), completed),
{
    let acts = seq![TerminalAction::Print(ch)];
    assert(acts.drop_last() =~= Seq::<TerminalAction>::empty());
    assert(acts.last() == TerminalAction::Print(ch));
    assert(apply_actions(buffer, completed, acts.drop_last()) == (buffer, completed));
}

/// Printed text is kept as it is: when the parser reports only printed
/// characters, they go at the end of the current line, in order, and no
/// line is completed.
pub proof fn lemma_printed_text_is_appended(
    buffer: Seq<char>,
    completed: Seq<Seq<char>>,
    acts: Seq<TerminalAction>,
)
    requires
        forall|i: int| 0 <= i < acts.len() ==> #[trigger] acts[i] is Print,
    ensures
        apply_actions(buffer, completed, acts) == (buffer + printed_text(acts), completed),
    decreases acts.len(),
{
    if acts.len() == 0 {
        assert(buffer + printed_text(acts) =~= buffer);
    } else {
        assert(acts.drop_last().len() == acts.len() - 1);
        assert forall|i: int| 0 <= i < acts.drop_last().len() implies #[trigger] acts.drop_last()[i] is Print by {
            assert(acts.drop_last()[i] == acts[i]);
        }
        lemma_printed_text_is_appended(buffer, completed, acts.drop_last());
        assert(acts[acts.len() - 1] is Print);
        assert(buffer + printed_text(acts) =~= (buffer + printed_text(acts.drop_last())).push(
            acts.last()->Print_0,
        ));
    }
}

/// A line of plain printed text ended by a line feed is completed exactly
/// as it was printed, and the next line starts empty.
pub proof fn lemma_printed_line_is_completed(completed: Seq<Seq<char>>, acts: Seq<TerminalAction>)
    requires
        forall|i: int| 0 <= i < acts.len() ==> #[trigger] acts[i] is Print,
    ensures
        apply_actions(Seq::empty(), completed, acts.push(TerminalAction::Execute(0x0a)))
            == (Seq::<char>::empty(), completed.push(printed_text(acts))),
{
    lemma_printed_text_is_appended(Seq::empty(), completed, acts);
    assert(acts.push(TerminalAction::Execute(0x0a)).drop_last() =~= acts);
    assert(Seq::<char>::empty() + printed_text(acts) =~= printed_text(acts));
}

/// Lines are only ever added at the end, one for each line feed: the lines
/// completed before stay as they were.
pub proof fn lemma_one_line_per_newline(
    buffer: Seq<char>,
    completed: Seq<Seq<char>>,
    acts: Seq<TerminalAction>,
)
    ensures
        apply_actions(buffer, completed, acts).1.len() == completed.len() + newline_count(acts),
        apply_actions(buffer, completed, acts).1.subrange(0, completed.len() as int) == completed,
    decreases acts.len(),
{
    if acts.len() > 0 {
        lemma_one_line_per_newline(buffer, completed, acts.drop_last());
        let prev = apply_actions(buffer, completed, acts.drop_last());
        let next = apply_action(prev.0, prev.1, acts.last());
        assert(next.1.subrange(0, completed.len() as int) =~= prev.1.subrange(
            0,
            completed.len() as int,
        ));
    } else {
        assert(completed.subrange(0, completed.len() as int) =~= completed);
    }
}

/// The line being written and the lines completed but not yet handed out.
pub struct ProcessorState {
    pub buffer: String,
    pub completed: Vec<String>,
}

impl ProcessorState {
    /// No text and no lines.
    pub fn new() -> (r: Self)
        ensures
            r.buffer@ == Seq::<char>::empty(),
            r.completed@.len() == 0,
    {
        ProcessorState { buffer: String::new(), completed: Vec::new() }
    }

    /// A printable character goes at the end of the current line.
    pub fn print(&mut self, c: char)
        ensures
            final(self).buffer@ == old(self).buffer@.push(c),
            final(self).completed@ == old(self).completed@,
    {
        push_char(&mut self.buffer, c);
    }

    /// A control byte: `\n` completes the current line and starts an empty
    /// one, `\r` empties the current line so that what follows overwrites it,
    /// `\t` is kept as a tab; any other control is dropped.
    pub fn execute(&mut self, byte: u8)
        ensures
            (final(self).buffer@, strings_view(final(self).completed@)) == apply_action(
                old(self).buffer@,
                strings_view(old(self).completed@),
                TerminalAction::Execute(byte),
            ),
    {
        if byte == 0x0a {
            let mut line = String::new();
            std::mem::swap(&mut line, &mut self.buffer);
            self.completed.push(line);
            assert(strings_view(self.completed@) =~= strings_view(old(self).completed@).push(
                old(self).buffer@,
            ));
        } else if byte == 0x0d {
            self.buffer = String::new();
        } else if byte == 0x09 {
            push_char(&mut self.buffer, '\t');
        }
    }

    /// The end of a CSI sequence: erase-in-line (`K`) and erase-in-display
    /// (`J`) empty the current line; any other command is dropped.
    pub fn csi_dispatch(&mut self, action: char)
        ensures
            (final(self).buffer@, strings_view(final(self).completed@)) == apply_action(
                old(self).buffer@,
                strings_view(old(self).completed@),
                TerminalAction::CsiDispatch(action),
            ),
    {
        if action == 'K' || action == 'J' {
            self.buffer = String::new();
        }
    }

    /// Applies one parser callback.
    pub fn apply(&mut self, a: TerminalAction)
        ensures
            (final(self).buffer@, strings_view(final(self).completed@)) == apply_action(
                old(self).buffer@,
                strings_view(old(self).completed@),
                a,
            ),
    {
        match a {
            TerminalAction::Print(c) => {
                self.print(c);
            },
            TerminalAction::Execute(b) => {
                self.execute(b);
            },
            TerminalAction::CsiDispatch(c) => {
                self.csi_dispatch(c);
            },
            _ => {},
        }
    }

    /// Applies the callbacks `acts` in order.
    pub fn apply_all(&mut self, acts: &Vec<TerminalAction>)
        ensures
            (final(self).buffer@, strings_view(final(self).completed@)) == apply_actions(
                old(self).buffer@,
                strings_view(old(self).completed@),
                acts@,
            ),
    {
        let mut i: usize = 0;
        while i < acts.len()
            invariant
                i <= acts@.len(),
                (self.buffer@, strings_view(self.completed@)) == apply_actions(
                    old(self).buffer@,
                    strings_view(old(self).completed@),
                    acts@.take(i as int),
                ),
            decreases acts.len() - i,
        {
            assert(acts@.take(i + 1).drop_last() =~= acts@.take(i as int));
            self.apply(acts[i]);
            i = i + 1;
        }
        assert(acts@.take(acts@.len() as int) =~= acts@);
    }
}

/// Feeds a child's output through a terminal escape-sequence parser and keeps
/// the line being written between calls.
pub struct LineProcessor {
    parser: vte::Parser,
    state: ProcessorState,
}

impl View for LineProcessor {
    /// The line being written.
    type V = Seq<char>;

    closed spec fn view(&self) -> Seq<char> {
        self.state.buffer@
    }
}

impl LineProcessor {
    /// The state of the escape-sequence parser.
    pub closed spec fn parser(&self) -> vte::Parser {
        self.parser
    }

    /// A processor with an empty line and a parser in its ground state.
    pub fn new() -> (r: Self)
        ensures
            r@ == Seq::<char>::empty(),
    {
        LineProcessor { parser: new_parser(), state: ProcessorState::new() }
    }

    /// Feeds `bytes` to the parser and returns the lines that they complete,
    /// in order; the unfinished rest stays as the current line, and the
    /// parser keeps where it stands in an escape sequence or a character cut
    /// off at the end of `bytes`.
    pub fn process(&mut self, bytes: &[u8]) -> (lines: Vec<String>)
        ensures
            final(self).parser() == vte_parser_after(old(self).parser(), bytes@),
            ({
                let r = apply_actions(old(self)@, Seq::empty(), vte_actions(old(self).parser(), bytes@));
                &&& final(self)@ == r.0
                &&& strings_view(lines@) == r.1
            }),
    {
        let acts = advance_parser(&mut self.parser, bytes);
        let mut buffer = String::new();
        std::mem::swap(&mut buffer, &mut self.state.buffer);
        let mut state = ProcessorState { buffer, completed: Vec::new() };
        assert(strings_view(state.completed@) =~= Seq::<Seq<char>>::empty());
        state.apply_all(&acts);
        let ProcessorState { buffer, completed } = state;
        self.state = ProcessorState { buffer, completed: Vec::new() };
        completed
    }

    /// The line being written.
    pub fn current_line(&self) -> (r: &str)
        ensures
            r@ == self@,
    {
        self.state.buffer.as_str()
    }
}

impl Default for LineProcessor {
    fn default() -> (r: Self)
        ensures
            r@ == Seq::<char>::empty(),
    {
        Self::new()
    }
}

} // verus!
