//! The escape-sequence parser: bytes in, terminal actions out.
//!
//! Parsing is done by the `vte` crate. What it reports for a byte depends on
//! the bytes before it and on nothing else, so its behaviour is described by
//! one function from that history and the byte to a list of actions.

use vstd::prelude::*;
use vstd::slice::slice_to_vec;

verus! {

/// What the parser asks the terminal to do.
#[derive(Debug)]
pub enum VtEvent {
    /// Show a character.
    Print(char),
    /// Carry out a control byte.
    Execute(u8),
    /// A control sequence with its parameters, each a list of subparameters.
    Csi { params: Vec<Vec<u16>>, intermediates: Vec<u8>, action: char },
    /// An escape sequence.
    Esc { intermediates: Vec<u8>, byte: u8 },
    /// An operating system command.
    Osc { fields: Vec<Vec<u8>>, bell: bool },
    /// A device control string begins.
    Hook,
    /// One byte of a device control string.
    Put(u8),
    /// A device control string ends.
    Unhook,
}

/// A [`VtEvent`] as a mathematical value.
#[verifier::ext_equal]
pub enum VtAction {
    Print(char),
    Execute(u8),
    Csi { params: Seq<Seq<u16>>, intermediates: Seq<u8>, action: char },
    Esc { intermediates: Seq<u8>, byte: u8 },
    Osc { fields: Seq<Seq<u8>>, bell: bool },
    Hook,
    Put(u8),
    Unhook,
}

/// The contents of a list of lists.
pub open spec fn lists<T>(v: Seq<Vec<T>>) -> Seq<Seq<T>> {
    Seq::new(v.len(), |i: int| v[i]@)
}

impl View for VtEvent {
    type V = VtAction;

    open spec fn view(&self) -> VtAction {
        match self {
            VtEvent::Print(c) => VtAction::Print(*c),
            VtEvent::Execute(b) => VtAction::Execute(*b),
            VtEvent::Csi { params, intermediates, action } => VtAction::Csi {
                params: lists(params@),
                intermediates: intermediates@,
                action: *action,
            },
            VtEvent::Esc { intermediates, byte } => VtAction::Esc {
                intermediates: intermediates@,
                byte: *byte,
            },
            VtEvent::Osc { fields, bell } => VtAction::Osc {
                fields: lists(fields@),
                bell: *bell,
            },
            VtEvent::Hook => VtAction::Hook,
            VtEvent::Put(b) => VtAction::Put(*b),
            VtEvent::Unhook => VtAction::Unhook,
        }
    }
}

/// The actions that a list of events stands for.
pub open spec fn actions_of(events: Seq<VtEvent>) -> Seq<VtAction> {
    Seq::new(events.len(), |i: int| events[i]@)
}

/// The parser of the `vte` crate.
#[verifier::external_type_specification]
#[verifier::external_body]
pub struct ExParser<const OSC_RAW_BUF_SIZE: usize>(vte::Parser<OSC_RAW_BUF_SIZE>);

/// The parameter list that the `vte` crate hands out.
#[verifier::external_type_specification]
#[verifier::external_body]
pub struct ExParams(vte::Params);

/// The parameters a `vte::Params` holds, each with its subparameters.
pub uninterp spec fn params_held(params: vte::Params) -> Seq<Seq<u16>>;

/// The bytes a `vte::Parser` has taken in since it was made.
pub uninterp spec fn bytes_taken(parser: vte::Parser) -> Seq<u8>;

/// The callbacks that `vte::Parser::advance` makes for `byte`, in order, on a
/// parser that has taken in `history`.
pub uninterp spec fn vt_actions(history: Seq<u8>, byte: u8) -> Seq<VtAction>;

/// A byte that shows a character by itself: printable ASCII.
pub open spec fn printable(byte: u8) -> bool {
    0x20 <= byte <= 0x7e
}

/// After `history` the parser is between sequences: a printable byte is shown
/// as it stands and leaves no trace in what follows.
pub open spec fn idle(history: Seq<u8>) -> bool {
    forall|byte: u8, rest: Seq<u8>, next: u8|
        #![trigger vt_actions(history.push(byte) + rest, next)]
        printable(byte) ==> vt_actions(history, byte) == seq![VtAction::Print(byte as char)]
            && vt_actions(history.push(byte) + rest, next) == vt_actions(history + rest, next)
}

/// Whether the actions for a byte show that the parser is between sequences
/// after it: a character was shown, a control or escape sequence was
/// completed, a command was ended by the bell, or a control byte was carried
/// out that does not stand inside a sequence or that cancels one.
pub open spec fn settles(idle_before: bool, actions: Seq<VtAction>) -> bool {
    actions.len() > 0 && match actions.last() {
        VtAction::Print(_) => true,
        VtAction::Csi { .. } => true,
        VtAction::Esc { .. } => true,
        VtAction::Osc { bell, .. } => bell,
        VtAction::Execute(byte) => idle_before || byte == 0x18 || byte == 0x1a,
        _ => false,
    }
}

/// Collects the parser's callbacks.
pub struct Recorder {
    pub events: Vec<VtEvent>,
}

impl Recorder {
    /// Adds one event to the list.
    fn record(&mut self, event: VtEvent)
        ensures
            actions_of(final(self).events@) == actions_of(old(self).events@).push(event@),
    {
        self.events.push(event);
        assert(actions_of(self.events@) =~= actions_of(old(self).events@).push(event@));
    }
}

impl vte::Perform for Recorder {
    fn print(&mut self, c: char)
        ensures
            actions_of(final(self).events@) == actions_of(old(self).events@).push(
                VtAction::Print(c),
            ),
    {
        self.record(VtEvent::Print(c));
    }

    fn execute(&mut self, byte: u8)
        ensures
            actions_of(final(self).events@) == actions_of(old(self).events@).push(
                VtAction::Execute(byte),
            ),
    {
        self.record(VtEvent::Execute(byte));
    }

    fn csi_dispatch(
        &mut self,
        params: &vte::Params,
        intermediates: &[u8],
        _ignore: bool,
        action: char,
    )
        ensures
            actions_of(final(self).events@) == actions_of(old(self).events@).push(
                VtAction::Csi {
                    params: params_held(*params),
                    intermediates: intermediates@,
                    action,
                },
            ),
    {
        let event = VtEvent::Csi {
            params: param_lists(params),
            intermediates: slice_to_vec(intermediates),
            action,
        };
        self.record(event);
    }

    fn esc_dispatch(&mut self, intermediates: &[u8], _ignore: bool, byte: u8)
        ensures
            actions_of(final(self).events@) == actions_of(old(self).events@).push(
                VtAction::Esc { intermediates: intermediates@, byte },
            ),
    {
        self.record(VtEvent::Esc { intermediates: slice_to_vec(intermediates), byte });
    }

    fn osc_dispatch(&mut self, params: &[&[u8]], bell_terminated: bool)
        ensures
            actions_of(final(self).events@) == actions_of(old(self).events@).push(
                VtAction::Osc {
                    fields: Seq::new(params@.len(), |i: int| params@[i]@),
                    bell: bell_terminated,
                },
            ),
    {
        let mut copy: Vec<Vec<u8>> = Vec::new();
        let mut i: usize = 0;
        while i < params.len()
            invariant
                i <= params@.len(),
                copy@.len() == i,
                forall|k: int| 0 <= k < i ==> (#[trigger] copy@[k])@ == params@[k]@,
            decreases params@.len() - i,
        {
            copy.push(slice_to_vec(params[i]));
            i += 1;
        }
        assert(lists(copy@) =~= Seq::new(params@.len(), |i: int| params@[i]@));
        self.record(VtEvent::Osc { fields: copy, bell: bell_terminated });
    }

    fn hook(
        &mut self,
        _params: &vte::Params,
        _intermediates: &[u8],
        _ignore: bool,
        _action: char,
    )
        ensures
            actions_of(final(self).events@) == actions_of(old(self).events@).push(VtAction::Hook),
    {
        self.record(VtEvent::Hook);
    }

    fn put(&mut self, byte: u8)
        ensures
            actions_of(final(self).events@) == actions_of(old(self).events@).push(
                VtAction::Put(byte),
            ),
    {
        self.record(VtEvent::Put(byte));
    }

    fn unhook(&mut self)
        ensures
            actions_of(final(self).events@) == actions_of(old(self).events@).push(VtAction::Unhook),
    {
        self.record(VtEvent::Unhook);
    }
}

/// Copies the lists out of a `vte::Params` with `vte::Params::iter`: the
/// result holds the same parameters and subparameters, in order.
#[verifier::external_body]
fn param_lists(params: &vte::Params) -> (copy: Vec<Vec<u16>>)
    ensures
        lists(copy@) == params_held(*params),
{
    params.iter().map(|list| list.to_vec()).collect()
}

/// Makes a parser with `vte::Parser::new`: it has taken in nothing and is
/// between sequences.
#[verifier::external_body]
pub(crate) fn parser_new() -> (parser: vte::Parser)
    ensures
        bytes_taken(parser) == Seq::<u8>::empty(),
        idle(bytes_taken(parser)),
{
    vte::Parser::new()
}

/// Hands one byte to `vte::Parser::advance` and returns the callbacks it
/// made. They depend on the byte and on the bytes taken in before it, and
/// they show when the parser is back between sequences; see [`settles`].
#[verifier::external_body]
pub(crate) fn parser_advance(parser: &mut vte::Parser, byte: u8) -> (events: Vec<VtEvent>)
    ensures
        bytes_taken(*final(parser)) == bytes_taken(*old(parser)).push(byte),
        actions_of(events@) == vt_actions(bytes_taken(*old(parser)), byte),
        settles(idle(bytes_taken(*old(parser))), actions_of(events@)) ==> idle(
            bytes_taken(*final(parser)),
        ),
{
    let mut recorder = Recorder { events: Vec::new() };
    parser.advance(&mut recorder, byte);
    recorder.events
}

} // verus!
