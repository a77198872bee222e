use vstd::prelude::*;

use super::handler::{bulk_print_char, field_values, param_values, VtHandler};
use super::model::{ActionModel, ParamLists, ScreenModel};
use super::state::TerminalState;
use crate::grid::storage::Grid;
use crate::primitives::DirtyRows;

verus! {

/// Declares the type `vte::Parser`.
#[verifier::external_type_specification]
#[verifier::external_body]
pub struct ExParser<const N: usize>(vte::Parser<N>);

/// Declares the type `vte::Params`.
#[verifier::external_type_specification]
#[verifier::external_body]
pub struct ExParams(vte::Params);

/// The chunks that a `vte::Parser` has been fed since it was made, in order.
pub uninterp spec fn chunks_fed(parser: vte::Parser) -> Seq<Seq<u8>>;

/// What `vte::Parser::advance` reports for a chunk, after the given chunks.
pub uninterp spec fn vte_actions(fed: Seq<Seq<u8>>, chunk: Seq<u8>) -> Seq<ActionModel>;

/// The values held by a `vte::Params`: one list for each parameter, the subparameters after the
/// parameter itself.
pub uninterp spec fn params_held(params: vte::Params) -> ParamLists;

/// Whether a byte is printable ASCII.
pub open spec fn printable(byte: u8) -> bool {
    0x20 <= byte <= 0x7e
}

/// Whether all bytes are printable ASCII.
pub open spec fn all_printable(bytes: Seq<u8>) -> bool {
    forall|i: int| 0 <= i < bytes.len() ==> printable(#[trigger] bytes[i])
}

/// How many bytes at the front are printable ASCII.
pub open spec fn printable_prefix(bytes: Seq<u8>) -> nat
    decreases bytes.len(),
{
    if bytes.len() > 0 && printable(bytes[0]) {
        1 + printable_prefix(bytes.drop_first())
    } else {
        0
    }
}

/// Each byte printed as the character that it encodes.
pub open spec fn prints(bytes: Seq<u8>) -> Seq<ActionModel> {
    Seq::new(bytes.len(), |i: int| ActionModel::Print(bytes[i] as char))
}

/// Whether no sequence and no partial character is in progress after a single byte, by what was
/// reported for the byte and whether none was in progress before it.
///
/// A final byte ends a control or escape sequence, and a cancel byte ends any sequence. A control
/// character inside a sequence is executed without ending it. The escape byte ends a string but
/// begins a sequence. A byte that may lead a multi-byte character leaves the question open.
pub open spec fn ground_after(ground: bool, byte: u8, actions: Seq<ActionModel>) -> bool {
    if byte == 0x1b || actions.len() == 0 {
        false
    } else {
        match actions.last() {
            ActionModel::Print(c) => byte < 0xc0,
            ActionModel::Execute(b) => ground || byte == 0x18 || byte == 0x1a || byte >= 0x80,
            ActionModel::Csi { params, intermediates, action } => true,
            ActionModel::Esc { intermediates, byte } => true,
            ActionModel::Osc { fields } => true,
            ActionModel::Unhook => true,
            ActionModel::Hook => false,
            ActionModel::Put => false,
        }
    }
}

/// Of the chunks that the parser was fed, those after the last point at which it is known to have
/// been in its ground state: no partial sequence and no partial character was in progress.
pub open spec fn since_ground(fed: Seq<Seq<u8>>) -> Seq<Seq<u8>>
    decreases fed.len(),
{
    if fed.len() == 0 {
        Seq::empty()
    } else {
        let before = since_ground(fed.drop_last());
        let chunk = fed.last();
        let ground = before.len() == 0;
        if ground && all_printable(chunk) {
            Seq::empty()
        } else if chunk.len() == 1 && ground_after(ground, chunk[0], vte_actions(before, chunk)) {
            Seq::empty()
        } else {
            before.push(chunk)
        }
    }
}

/// Whether the parser is known to be in its ground state after the chunks it was fed.
pub open spec fn grounded(fed: Seq<Seq<u8>>) -> bool {
    since_ground(fed).len() == 0
}

/// What the parser reports for a chunk, after the given chunks. In the ground state it is as a new
/// one, so that the chunks before do not matter, and prints printable ASCII byte by byte.
pub open spec fn reports(fed: Seq<Seq<u8>>, chunk: Seq<u8>) -> Seq<ActionModel> {
    if grounded(fed) && all_printable(chunk) {
        prints(chunk)
    } else {
        vte_actions(since_ground(fed), chunk)
    }
}

/// A report of the parser.
pub enum VtAction {
    Print(char),
    Execute(u8),
    Csi { params: Vec<Vec<u16>>, intermediates: Vec<u8>, action: char },
    Esc { intermediates: Vec<u8>, byte: u8 },
    Osc { fields: Vec<Vec<u8>> },
    Hook,
    Unhook,
    Put,
}

impl View for VtAction {
    type V = ActionModel;

    open spec fn view(&self) -> ActionModel {
        match *self {
            VtAction::Print(c) => ActionModel::Print(c),
            VtAction::Execute(byte) => ActionModel::Execute(byte),
            VtAction::Csi { params, intermediates, action } => ActionModel::Csi {
                params: param_values(params@),
                intermediates: intermediates@,
                action,
            },
            VtAction::Esc { intermediates, byte } => ActionModel::Esc {
                intermediates: intermediates@,
                byte,
            },
            VtAction::Osc { fields } => ActionModel::Osc { fields: field_values(fields@) },
            VtAction::Hook => ActionModel::Hook,
            VtAction::Unhook => ActionModel::Unhook,
            VtAction::Put => ActionModel::Put,
        }
    }
}

/// Reports as mathematical values.
pub open spec fn action_values(actions: Seq<VtAction>) -> Seq<ActionModel> {
    Seq::new(actions.len(), |i: int| actions[i]@)
}

/// The reports of the parser, in order.
pub struct ActionLog {
    pub actions: Vec<VtAction>,
}

impl View for ActionLog {
    type V = Seq<ActionModel>;

    open spec fn view(&self) -> Seq<ActionModel> {
        action_values(self.actions@)
    }
}

/// `vte::Params::iter`: the list of each parameter, in order.
#[verifier::external_body]
fn param_lists(params: &vte::Params) -> (lists: Vec<Vec<u16>>)
    ensures
        param_values(lists@) == params_held(*params),
{
    params.iter().map(|list| list.to_vec()).collect()
}

/// A copy of some bytes.
fn bytes_of(bytes: &[u8]) -> (copy: Vec<u8>)
    ensures
        copy@ == bytes@,
{
    let mut copy: Vec<u8> = Vec::new();
    copy.extend_from_slice(bytes);
    assert(copy@ =~= bytes@);
    copy
}

impl ActionLog {
    fn record(&mut self, action: VtAction)
        ensures
            final(self)@ == old(self)@.push(action@),
    {
        self.actions.push(action);
        assert(self@ =~= old(self)@.push(action@));
    }
}

impl vte::Perform for ActionLog {
    fn print(&mut self, c: char)
        ensures
            final(self)@ == old(self)@.push(ActionModel::Print(c)),
    {
        self.record(VtAction::Print(c));
    }

    fn execute(&mut self, byte: u8)
        ensures
            final(self)@ == old(self)@.push(ActionModel::Execute(byte)),
    {
        self.record(VtAction::Execute(byte));
    }

    fn csi_dispatch(
        &mut self,
        params: &vte::Params,
        intermediates: &[u8],
        _ignore: bool,
        action: char,
    )
        ensures
            final(self)@ == old(self)@.push(
                ActionModel::Csi {
                    params: params_held(*params),
                    intermediates: intermediates@,
                    action,
                },
            ),
    {
        self.record(
            VtAction::Csi {
                params: param_lists(params),
                intermediates: bytes_of(intermediates),
                action,
            },
        );
    }

    fn esc_dispatch(&mut self, intermediates: &[u8], _ignore: bool, byte: u8)
        ensures
            final(self)@ == old(self)@.push(
                ActionModel::Esc { intermediates: intermediates@, byte },
            ),
    {
        self.record(VtAction::Esc { intermediates: bytes_of(intermediates), byte });
    }

    fn osc_dispatch(&mut self, params: &[&[u8]], _bell_terminated: bool)
        ensures
            final(self)@ == old(self)@.push(
                ActionModel::Osc {
                    fields: Seq::new(params@.len(), |i: int| params@[i]@),
                },
            ),
    {
        let mut fields: Vec<Vec<u8>> = Vec::new();
        let mut i: usize = 0;
        while i < params.len()
            invariant
                i <= params@.len(),
                fields@.len() == i,
                forall|k: int| 0 <= k < i ==> (#[trigger] fields@[k])@ == params@[k]@,
            decreases params@.len() - i,
        {
            fields.push(bytes_of(params[i]));
            i = i + 1;
        }
        assert(field_values(fields@) =~= Seq::new(params@.len(), |i: int| params@[i]@));
        self.record(VtAction::Osc { fields });
    }

    fn hook(&mut self, _params: &vte::Params, _intermediates: &[u8], _ignore: bool, _action: char)
        ensures
            final(self)@ == old(self)@.push(ActionModel::Hook),
    {
        self.record(VtAction::Hook);
    }

    fn unhook(&mut self)
        ensures
            final(self)@ == old(self)@.push(ActionModel::Unhook),
    {
        self.record(VtAction::Unhook);
    }

    fn put(&mut self, _byte: u8)
        ensures
            final(self)@ == old(self)@.push(ActionModel::Put),
    {
        self.record(VtAction::Put);
    }
}

/// `vte::Parser::new`: a parser that has been fed nothing.
#[verifier::external_body]
fn new_vte_parser() -> (parser: vte::Parser)
    ensures
        chunks_fed(parser) == Seq::<Seq<u8>>::empty(),
{
    vte::Parser::new()
}

/// `vte::Parser::advance`: what is reported depends on the bytes and on what was fed before, and
/// on nothing else. A parser in its ground state reports what a new one does, as it leaves that
/// state only by the escape byte or within a character, and the escape byte resets what a sequence
/// collects. In the ground state printable ASCII is printed byte by byte.
#[verifier::external_body]
fn advance(parser: &mut vte::Parser, bytes: &[u8]) -> (log: ActionLog)
    ensures
        chunks_fed(*final(parser)) == chunks_fed(*old(parser)).push(bytes@),
        log@ == vte_actions(chunks_fed(*old(parser)), bytes@),
        log@ == reports(chunks_fed(*old(parser)), bytes@),
{
    let mut log = ActionLog { actions: Vec::new() };
    parser.advance(&mut log, bytes);
    log
}

/// A screen and the chunks that the parser behind it has been fed.
#[verifier::ext_equal]
pub struct FeedModel {
    pub fed: Seq<Seq<u8>>,
    pub screen: ScreenModel,
}

impl FeedModel {
    /// A chunk given to the parser, and its reports performed.
    #[verifier::opaque]
    pub open spec fn dispatched(self, chunk: Seq<u8>) -> FeedModel {
        FeedModel {
            fed: self.fed.push(chunk),
            screen: self.screen.after_all(reports(self.fed, chunk)),
        }
    }

    /// Printable bytes written without the parser.
    #[verifier::opaque]
    pub open spec fn overprinted(self, bytes: Seq<u8>) -> FeedModel {
        FeedModel { fed: self.fed, screen: overprinted_all(self.screen, bytes) }
    }

    /// Bytes read: in the ground state a run of 16 printable bytes is written directly, a
    /// shorter run goes to the parser as one chunk; every other byte goes to it alone.
    pub open spec fn processed(self, bytes: Seq<u8>) -> FeedModel
        decreases bytes.len(),
    {
        if bytes.len() == 0 {
            self
        } else if !grounded(self.fed) {
            self.dispatched(bytes.take(1)).processed(bytes.skip(1))
        } else if bytes.len() >= 16 && all_printable(bytes.take(16)) {
            self.overprinted(bytes.take(16)).processed(bytes.skip(16))
        } else {
            let k = printable_prefix(bytes) as int;
            let ahead = if k > 0 {
                self.dispatched(bytes.take(k))
            } else {
                self
            };
            if k >= bytes.len() {
                ahead
            } else {
                ahead.dispatched(bytes.subrange(k, k + 1)).processed(bytes.skip(k + 1))
            }
        }
    }
}

/// Printable bytes written one after the other over what is there.
pub open spec fn overprinted_all(screen: ScreenModel, bytes: Seq<u8>) -> ScreenModel
    decreases bytes.len(),
{
    if bytes.len() == 0 {
        screen
    } else {
        overprinted_all(screen, bytes.drop_last()).overprinted(bytes.last() as char)
    }
}

/// Outside insert mode, writing printable bytes directly leaves the screen as if each had been
/// reported as a printed character.
pub proof fn overprinting_is_printing(screen: ScreenModel, bytes: Seq<u8>)
    requires
        !screen.term.insert_mode,
    ensures
        overprinted_all(screen, bytes) == screen.after_all(prints(bytes)),
    decreases bytes.len(),
{
    if bytes.len() > 0 {
        reveal(ScreenModel::after);
        overprinting_is_printing(screen, bytes.drop_last());
        keeps_insert_mode(screen, bytes.drop_last());
        assert(prints(bytes).drop_last() =~= prints(bytes.drop_last()));
    }
}

/// Printing does not switch insert mode.
proof fn keeps_insert_mode(screen: ScreenModel, bytes: Seq<u8>)
    ensures
        overprinted_all(screen, bytes).term.insert_mode == screen.term.insert_mode,
    decreases bytes.len(),
{
    if bytes.len() > 0 {
        keeps_insert_mode(screen, bytes.drop_last());
    }
}

/// A series of reports performed in two parts.
proof fn performed_in_parts(screen: ScreenModel, first: Seq<ActionModel>, second: Seq<ActionModel>)
    ensures
        screen.after_all(first + second) == screen.after_all(first).after_all(second),
    decreases second.len(),
{
    if second.len() == 0 {
        assert(first + second =~= first);
    } else {
        performed_in_parts(screen, first, second.drop_last());
        assert((first + second).drop_last() =~= first + second.drop_last());
    }
}

/// Plain text after plain text, written directly or reported as printed.
proof fn text_goes_on(screen: ScreenModel, now: FeedModel, done: Seq<u8>, run: Seq<u8>)
    requires
        !screen.term.insert_mode,
        now.screen == screen.after_all(prints(done)),
    ensures
        now.overprinted(run).screen == screen.after_all(prints(done + run)),
        now.screen.after_all(prints(run)) == screen.after_all(prints(done + run)),
{
    reveal(FeedModel::overprinted);
    overprinting_is_printing(screen, done);
    keeps_insert_mode(screen, done);
    performed_in_parts(screen, prints(done), prints(run));
    assert(prints(done + run) =~= prints(done) + prints(run));
    overprinting_is_printing(now.screen, run);
}

impl FeedModel {
    /// Bytes given to the parser one by one.
    pub open spec fn stepped(self, bytes: Seq<u8>) -> FeedModel
        decreases bytes.len(),
    {
        if bytes.len() == 0 {
            self
        } else {
            self.stepped(bytes.drop_last()).dispatched(seq![bytes.last()])
        }
    }

    /// Whether two screens are the same and whatever is read from here on will be reported the
    /// same.
    pub open spec fn alike(self, other: FeedModel) -> bool {
        self.screen == other.screen && since_ground(self.fed) == since_ground(other.fed)
    }

    /// Whether insert mode is off before each of the bytes that are given one by one.
    spec fn calm(self, bytes: Seq<u8>) -> bool {
        forall|k: int|
            0 <= k < bytes.len() ==> !(#[trigger] self.stepped(
                bytes.take(k),
            )).screen.term.insert_mode
    }

    /// Whether insert mode is off before each of the bytes that are read.
    pub open spec fn never_inserts(self, bytes: Seq<u8>) -> bool {
        forall|k: int|
            0 <= k < bytes.len() ==> !(#[trigger] self.processed(
                bytes.take(k),
            )).screen.term.insert_mode
    }
}

/// The same chunk leaves alike what is alike.
proof fn dispatched_alike(x: FeedModel, y: FeedModel, chunk: Seq<u8>)
    requires
        x.alike(y),
    ensures
        x.dispatched(chunk).alike(y.dispatched(chunk)),
{
    reveal(FeedModel::dispatched);
    assert(x.fed.push(chunk).drop_last() =~= x.fed);
    assert(y.fed.push(chunk).drop_last() =~= y.fed);
}

/// The same bytes leave alike what is alike.
proof fn stepped_alike(x: FeedModel, y: FeedModel, bytes: Seq<u8>)
    requires
        x.alike(y),
    ensures
        x.stepped(bytes).alike(y.stepped(bytes)),
    decreases bytes.len(),
{
    if bytes.len() > 0 {
        stepped_alike(x, y, bytes.drop_last());
        dispatched_alike(
            x.stepped(bytes.drop_last()),
            y.stepped(bytes.drop_last()),
            seq![bytes.last()],
        );
    }
}

/// Bytes given one by one can be given in two parts.
proof fn stepped_in_parts(x: FeedModel, first: Seq<u8>, second: Seq<u8>)
    ensures
        x.stepped(first + second) == x.stepped(first).stepped(second),
    decreases second.len(),
{
    if second.len() == 0 {
        assert(first + second =~= first);
    } else {
        stepped_in_parts(x, first, second.drop_last());
        assert((first + second).drop_last() =~= first + second.drop_last());
    }
}

/// A byte given one by one is a chunk of its own.
proof fn one_step(x: FeedModel, byte: Seq<u8>)
    requires
        byte.len() == 1,
    ensures
        x.stepped(byte) == x.dispatched(byte),
{
    assert(byte.drop_last() =~= Seq::empty());
    assert(x.stepped(byte.drop_last()) == x);
    assert(seq![byte.last()] =~= byte);
}

/// In the ground state, plain text given one by one is printed, as it is in one chunk, and leaves
/// the parser there.
proof fn text_is_stepped(x: FeedModel, run: Seq<u8>)
    requires
        grounded(x.fed),
        all_printable(run),
    ensures
        x.stepped(run).screen == x.screen.after_all(prints(run)),
        grounded(x.stepped(run).fed),
        x.dispatched(run).alike(x.stepped(run)),
    decreases run.len(),
{
    reveal(FeedModel::dispatched);
    assert(x.fed.push(run).drop_last() =~= x.fed);
    if run.len() > 0 {
        let most = run.drop_last();
        let one = seq![run.last()];
        assert(all_printable(most)) by {
            assert forall|i: int| 0 <= i < most.len() implies printable(#[trigger] most[i]) by {
                assert(most[i] == run[i]);
            }
        }
        assert(all_printable(one)) by {
            assert(printable(run[run.len() - 1]));
        }
        text_is_stepped(x, most);
        performed_in_parts(x.screen, prints(most), prints(one));
        assert(prints(most) + prints(one) =~= prints(run));
        let y = x.stepped(most);
        assert(y.fed.push(one).drop_last() =~= y.fed);
    } else {
        assert(prints(run) =~= Seq::empty());
    }
    assert(since_ground(x.dispatched(run).fed) =~= since_ground(x.stepped(run).fed));
}

/// Outside insert mode, plain text written directly leaves what plain text given one by one does.
proof fn text_is_overprinted(x: FeedModel, run: Seq<u8>)
    requires
        grounded(x.fed),
        all_printable(run),
        !x.screen.term.insert_mode,
    ensures
        x.overprinted(run).alike(x.stepped(run)),
{
    reveal(FeedModel::overprinted);
    text_is_stepped(x, run);
    overprinting_is_printing(x.screen, run);
    assert(since_ground(x.fed) =~= since_ground(x.stepped(run).fed));
}

/// After the front of some bytes, insert mode stays off before each of the rest.
proof fn calm_after(x: FeedModel, now: FeedModel, bytes: Seq<u8>, n: int)
    requires
        0 <= n <= bytes.len(),
        x.calm(bytes),
        now.alike(x.stepped(bytes.take(n))),
    ensures
        now.calm(bytes.skip(n)),
        now.stepped(bytes.skip(n)).alike(x.stepped(bytes)),
{
    let rest = bytes.skip(n);
    let there = x.stepped(bytes.take(n));
    assert forall|k: int| 0 <= k < rest.len() implies !(#[trigger] now.stepped(
        rest.take(k),
    )).screen.term.insert_mode by {
        stepped_alike(now, there, rest.take(k));
        stepped_in_parts(x, bytes.take(n), rest.take(k));
        assert(bytes.take(n) + rest.take(k) =~= bytes.take(n + k));
        assert(!x.stepped(bytes.take(n + k)).screen.term.insert_mode);
    }
    stepped_alike(now, there, rest);
    stepped_in_parts(x, bytes.take(n), rest);
    assert(bytes.take(n) + rest =~= bytes);
}

/// Being alike carries over.
proof fn alike_carries_over(x: FeedModel, y: FeedModel, z: FeedModel)
    requires
        x.alike(y),
        y.alike(z),
    ensures
        x.alike(z),
{
}

/// The printable front of some bytes.
proof fn prefix_is_printable(bytes: Seq<u8>)
    ensures
        printable_prefix(bytes) <= bytes.len(),
        all_printable(bytes.take(printable_prefix(bytes) as int)),
    decreases bytes.len(),
{
    if bytes.len() > 0 && printable(bytes[0]) {
        let rest = bytes.drop_first();
        prefix_is_printable(rest);
        let k = printable_prefix(bytes) as int;
        assert forall|i: int| 0 <= i < k implies printable(#[trigger] bytes.take(k)[i]) by {
            if i > 0 {
                assert(rest.take(k - 1)[i - 1] == bytes[i]);
            }
        }
    }
}

/// Outside insert mode, reading bytes leaves what giving them to the parser one by one does.
proof fn reading_is_stepping(x: FeedModel, bytes: Seq<u8>)
    requires
        x.calm(bytes),
    ensures
        x.processed(bytes).alike(x.stepped(bytes)),
    decreases bytes.len(), 0int,
{
    if bytes.len() > 0 {
        assert(bytes.take(0) =~= Seq::empty());
        assert(!x.stepped(bytes.take(0)).screen.term.insert_mode);
        if !grounded(x.fed) {
            one_step(x, bytes.take(1));
            go_on(x, x.dispatched(bytes.take(1)), bytes, 1);
        } else if bytes.len() >= 16 && all_printable(bytes.take(16)) {
            text_is_overprinted(x, bytes.take(16));
            go_on(x, x.overprinted(bytes.take(16)), bytes, 16);
        } else {
            let k = printable_prefix(bytes) as int;
            prefix_is_printable(bytes);
            text_is_stepped(x, bytes.take(k));
            let ahead = if k > 0 {
                x.dispatched(bytes.take(k))
            } else {
                x
            };
            assert(k == 0 ==> x.stepped(bytes.take(k)) == x);
            assert(ahead.alike(x.stepped(bytes.take(k))));
            if k >= bytes.len() {
                assert(bytes.take(k) =~= bytes);
            } else {
                let one = bytes.subrange(k, k + 1);
                dispatched_alike(ahead, x.stepped(bytes.take(k)), one);
                one_step(x.stepped(bytes.take(k)), one);
                stepped_in_parts(x, bytes.take(k), one);
                assert(bytes.take(k) + one =~= bytes.take(k + 1));
                go_on(x, ahead.dispatched(one), bytes, k + 1);
            }
        }
    }
}

/// Reading the rest of some bytes, from where their front has led.
proof fn go_on(x: FeedModel, now: FeedModel, bytes: Seq<u8>, n: int)
    requires
        0 < n <= bytes.len(),
        x.calm(bytes),
        now.alike(x.stepped(bytes.take(n))),
    ensures
        now.processed(bytes.skip(n)).alike(x.stepped(bytes)),
    decreases bytes.len() - n, 1int,
{
    calm_after(x, now, bytes, n);
    reading_is_stepping(now, bytes.skip(n));
    alike_carries_over(
        now.processed(bytes.skip(n)),
        now.stepped(bytes.skip(n)),
        x.stepped(bytes),
    );
}

/// Insert mode is off before each of the bytes, however they are given.
proof fn calm_when_read(x: FeedModel, bytes: Seq<u8>)
    requires
        x.never_inserts(bytes),
    ensures
        x.calm(bytes),
    decreases bytes.len(),
{
    if bytes.len() > 0 {
        let most = bytes.drop_last();
        assert(x.never_inserts(most)) by {
            assert forall|k: int| 0 <= k < most.len() implies !(#[trigger] x.processed(
                most.take(k),
            )).screen.term.insert_mode by {
                assert(most.take(k) =~= bytes.take(k));
            }
        }
        calm_when_read(x, most);
        reading_is_stepping(x, most);
        assert forall|k: int| 0 <= k < bytes.len() implies !(#[trigger] x.stepped(
            bytes.take(k),
        )).screen.term.insert_mode by {
            if k < most.len() {
                assert(most.take(k) =~= bytes.take(k));
                assert(!x.stepped(most.take(k)).screen.term.insert_mode);
            } else {
                assert(bytes.take(k) =~= most);
                assert(!x.processed(bytes.take(k)).screen.term.insert_mode);
            }
        }
    }
}

/// Outside insert mode, it does not matter where the input is cut: reading it in two parts leaves
/// the same screen as reading it whole, and whatever follows is read the same.
pub proof fn cuts_do_not_matter(feed: FeedModel, first: Seq<u8>, second: Seq<u8>)
    requires
        feed.never_inserts(first + second),
    ensures
        feed.processed(first).processed(second).screen == feed.processed(first + second).screen,
        feed.processed(first).processed(second).alike(feed.processed(first + second)),
{
    let whole = first + second;
    let n = first.len() as int;
    calm_when_read(feed, whole);
    reading_is_stepping(feed, whole);
    assert(whole.take(n) =~= first);
    assert(whole.skip(n) =~= second);
    assert(feed.calm(first)) by {
        assert forall|k: int| 0 <= k < first.len() implies !(#[trigger] feed.stepped(
            first.take(k),
        )).screen.term.insert_mode by {
            assert(first.take(k) =~= whole.take(k));
            assert(!feed.stepped(whole.take(k)).screen.term.insert_mode);
        }
    }
    reading_is_stepping(feed, first);
    let now = feed.processed(first);
    calm_after(feed, now, whole, n);
    reading_is_stepping(now, second);
}

/// Where printable bytes stop, the prefix ends.
proof fn prefix_ends(bytes: Seq<u8>, k: int)
    requires
        0 <= k <= bytes.len(),
        forall|i: int| 0 <= i < k ==> printable(#[trigger] bytes[i]),
        k < bytes.len() ==> !printable(bytes[k]),
    ensures
        printable_prefix(bytes) == k,
    decreases bytes.len(),
{
    if k > 0 {
        prefix_ends(bytes.drop_first(), k - 1);
    }
}

/// VT parser with a fast path for plain text.
///
/// Tracks whether the VTE state machine is in Ground state. The fast path (bulk ASCII print) is
/// only entered when in Ground: otherwise continuation bytes from a mid-escape sequence could be
/// misinterpreted as printable text.
pub struct VtParser {
    vte_parser: vte::Parser,
    /// True when the VTE parser is known to be in Ground state (no partial escape sequence in
    /// progress). Starts true (the parser starts in Ground).
    in_ground: bool,
}

impl View for VtParser {
    type V = Seq<Seq<u8>>;

    /// The chunks that went to the VTE parser.
    closed spec fn view(&self) -> Seq<Seq<u8>> {
        chunks_fed(self.vte_parser)
    }
}

/// Check if the first 16 bytes are printable ASCII (0x20..=0x7E).
pub fn all_printable_16(bytes: &[u8]) -> (all: bool)
    ensures
        all == (bytes@.len() >= 16 && all_printable(bytes@.take(16))),
{
    if bytes.len() < 16 {
        return false;
    }
    let mut i: usize = 0;
    while i < 16
        invariant
            i <= 16 <= bytes@.len(),
            forall|k: int| 0 <= k < i ==> printable(#[trigger] bytes@.take(16)[k]),
        decreases 16 - i,
    {
        let b: u8 = bytes[i];
        assert(b == bytes@.take(16)[i as int]);
        if !(0x20 <= b && b <= 0x7e) {
            return false;
        }
        i = i + 1;
    }
    true
}

/// Perform one report.
pub fn perform(
    action: &VtAction,
    grid: &mut Grid,
    state: &mut TerminalState,
    dirty: &mut DirtyRows,
)
    requires
        old(grid).wf(),
    ensures
        final(grid).wf(),
        (ScreenModel { grid: final(grid)@, term: final(state)@, dirty: final(dirty)@ }) == (
        ScreenModel { grid: old(grid)@, term: old(state)@, dirty: old(dirty)@ }).after(action@),
{
    reveal(ScreenModel::after);
    let mut handler = VtHandler::new(grid, state, dirty);
    match action {
        VtAction::Print(c) => handler.print(*c),
        VtAction::Execute(byte) => handler.execute(*byte),
        VtAction::Csi { params, intermediates, action } => handler.csi_dispatch(
            params,
            intermediates,
            *action,
        ),
        VtAction::Esc { intermediates, byte } => handler.esc_dispatch(intermediates, *byte),
        VtAction::Osc { fields } => handler.osc_dispatch(fields),
        VtAction::Hook => {},
        VtAction::Unhook => {},
        VtAction::Put => {},
    }
}

/// Perform reports, in order.
pub fn perform_all(
    actions: &Vec<VtAction>,
    grid: &mut Grid,
    state: &mut TerminalState,
    dirty: &mut DirtyRows,
)
    requires
        old(grid).wf(),
    ensures
        final(grid).wf(),
        (ScreenModel { grid: final(grid)@, term: final(state)@, dirty: final(dirty)@ }) == (
        ScreenModel { grid: old(grid)@, term: old(state)@, dirty: old(dirty)@ }).after_all(
            action_values(actions@),
        ),
{
    let ghost values = action_values(actions@);
    let ghost start = ScreenModel { grid: grid@, term: state@, dirty: dirty@ };
    let mut i: usize = 0;
    while i < actions.len()
        invariant
            i <= actions@.len(),
            values == action_values(actions@),
            grid.wf(),
            (ScreenModel { grid: grid@, term: state@, dirty: dirty@ }) == start.after_all(
                values.take(i as int),
            ),
        decreases actions@.len() - i,
    {
        perform(&actions[i], grid, state, dirty);
        i = i + 1;
        proof {
            assert(values.take(i as int).drop_last() =~= values.take(i - 1));
            assert(values.take(i as int).last() == values[i - 1]);
        }
    }
    assert(values.take(i as int) =~= values);
}

/// Whether the reports for a single byte show that the parser is back in its ground state.
fn shows_ground(ground: bool, byte: u8, actions: &Vec<VtAction>) -> (shown: bool)
    ensures
        shown == ground_after(ground, byte, action_values(actions@)),
{
    if byte == 0x1b || actions.len() == 0 {
        return false;
    }
    match &actions[actions.len() - 1] {
        VtAction::Print(_) => byte < 0xc0,
        VtAction::Execute(_) => ground || byte == 0x18 || byte == 0x1a || byte >= 0x80,
        VtAction::Csi { .. } => true,
        VtAction::Esc { .. } => true,
        VtAction::Osc { .. } => true,
        VtAction::Unhook => true,
        VtAction::Hook => false,
        VtAction::Put => false,
    }
}

impl VtParser {
    /// The fast path is open exactly when the parser is known to be in its ground state.
    pub closed spec fn wf(&self) -> bool {
        self.in_ground == grounded(chunks_fed(self.vte_parser))
    }

    pub fn new() -> (parser: VtParser)
        ensures
            parser.wf(),
            parser@ == Seq::<Seq<u8>>::empty(),
    {
        VtParser { vte_parser: new_vte_parser(), in_ground: true }
    }

    /// Give a chunk of printable bytes, or a single byte, to the VTE parser.
    fn dispatch(
        &mut self,
        chunk: &[u8],
        grid: &mut Grid,
        state: &mut TerminalState,
        dirty: &mut DirtyRows,
    )
        requires
            old(self).wf(),
            old(grid).wf(),
            chunk@.len() == 1 || (old(self).in_ground && all_printable(chunk@)),
        ensures
            final(self).wf(),
            final(grid).wf(),
            (FeedModel {
                fed: final(self)@,
                screen: ScreenModel { grid: final(grid)@, term: final(state)@, dirty: final(dirty)@ },
            }) == (FeedModel {
                fed: old(self)@,
                screen: ScreenModel { grid: old(grid)@, term: old(state)@, dirty: old(dirty)@ },
            }).dispatched(chunk@),
            old(self).in_ground && all_printable(chunk@) ==> final(self).in_ground && (
            ScreenModel { grid: final(grid)@, term: final(state)@, dirty: final(dirty)@ }) == (
            ScreenModel { grid: old(grid)@, term: old(state)@, dirty: old(dirty)@ }).after_all(
                prints(chunk@),
            ),
    {
        reveal(FeedModel::dispatched);
        let ghost fed = self@;
        let log = advance(&mut self.vte_parser, chunk);
        perform_all(&log.actions, grid, state, dirty);
        assert(self@.drop_last() =~= fed);
        if chunk.len() == 1 {
            let byte: u8 = chunk[0];
            let plain = 0x20 <= byte && byte <= 0x7e;
            assert(plain == all_printable(chunk@));
            if !(self.in_ground && plain) {
                self.in_ground = shows_ground(self.in_ground, byte, &log.actions);
            }
        }
    }

    /// Write printable bytes without the VTE parser, which stays in its ground state.
    fn print_run(
        &self,
        run: &[u8],
        grid: &mut Grid,
        state: &mut TerminalState,
        dirty: &mut DirtyRows,
    )
        requires
            old(grid).wf(),
        ensures
            final(grid).wf(),
            (FeedModel {
                fed: self@,
                screen: ScreenModel { grid: final(grid)@, term: final(state)@, dirty: final(dirty)@ },
            }) == (FeedModel {
                fed: self@,
                screen: ScreenModel { grid: old(grid)@, term: old(state)@, dirty: old(dirty)@ },
            }).overprinted(run@),
    {
        reveal(FeedModel::overprinted);
        let ghost start = ScreenModel { grid: grid@, term: state@, dirty: dirty@ };
        let mut k: usize = 0;
        assert(run@.take(0) =~= Seq::empty());
        while k < run.len()
            invariant
                k <= run@.len(),
                grid.wf(),
                (ScreenModel { grid: grid@, term: state@, dirty: dirty@ }) == overprinted_all(
                    start,
                    run@.take(k as int),
                ),
            decreases run@.len() - k,
        {
            bulk_print_char(grid, state, dirty, run[k] as char);
            k = k + 1;
            assert(run@.take(k as int).drop_last() =~= run@.take(k - 1));
            assert(run@.take(k as int).last() == run@[k - 1]);
        }
        assert(run@.take(k as int) =~= run@);
    }

    /// Process a byte buffer through the VT parser, writing to the grid.
    ///
    /// Pure printable ASCII chunks bypass the VTE state machine, but only when the parser is
    /// known to be in Ground state.
    pub fn process(
        &mut self,
        bytes: &[u8],
        grid: &mut Grid,
        state: &mut TerminalState,
        dirty: &mut DirtyRows,
    )
        requires
            old(self).wf(),
            old(grid).wf(),
        ensures
            final(self).wf(),
            final(grid).wf(),
            (FeedModel {
                fed: final(self)@,
                screen: ScreenModel { grid: final(grid)@, term: final(state)@, dirty: final(dirty)@ },
            }) == (FeedModel {
                fed: old(self)@,
                screen: ScreenModel { grid: old(grid)@, term: old(state)@, dirty: old(dirty)@ },
            }).processed(bytes@),
            // Plain text outside insert mode is printed character by character.
            grounded(old(self)@) && all_printable(bytes@) && !old(state)@.insert_mode ==> (
            ScreenModel { grid: final(grid)@, term: final(state)@, dirty: final(dirty)@ }) == (
            ScreenModel { grid: old(grid)@, term: old(state)@, dirty: old(dirty)@ }).after_all(
                prints(bytes@),
            ),
    {
        let ghost start = FeedModel {
            fed: self@,
            screen: ScreenModel { grid: grid@, term: state@, dirty: dirty@ },
        };
        let ghost plain = grounded(self@) && all_printable(bytes@) && !state@.insert_mode;
        let len: usize = bytes.len();
        let mut offset: usize = 0;
        assert(bytes@.skip(0) =~= bytes@);
        assert(prints(bytes@.take(0)) =~= Seq::empty());
        while offset < len
            invariant
                offset <= len == bytes@.len(),
                self.wf(),
                grid.wf(),
                (FeedModel {
                    fed: self@,
                    screen: ScreenModel { grid: grid@, term: state@, dirty: dirty@ },
                }).processed(bytes@.skip(offset as int)) == start.processed(bytes@),
                plain ==> all_printable(bytes@) && !start.screen.term.insert_mode,
                plain ==> self.in_ground && (ScreenModel {
                    grid: grid@,
                    term: state@,
                    dirty: dirty@,
                }) == start.screen.after_all(prints(bytes@.take(offset as int))),
            decreases len - offset,
        {
            let ghost rest = bytes@.skip(offset as int);
            let ghost now = FeedModel {
                fed: self@,
                screen: ScreenModel { grid: grid@, term: state@, dirty: dirty@ },
            };
            let tail: &[u8] = vstd::slice::slice_subrange(bytes, offset, len);
            assert(tail@ =~= rest);
            if self.in_ground && all_printable_16(tail) {
                let run: &[u8] = vstd::slice::slice_subrange(tail, 0, 16);
                assert(run@ =~= rest.take(16));
                self.print_run(run, grid, state, dirty);
                proof {
                    if plain {
                        let done = bytes@.take(offset as int);
                        text_goes_on(start.screen, now, done, run@);
                        assert(done + run@ =~= bytes@.take(offset + 16));
                    }
                }
                offset = offset + 16;
                assert(bytes@.skip(offset as int) =~= rest.skip(16));
                continue;
            }
            if self.in_ground {
                // Find the first byte that is not printable.
                let mut k: usize = 0;
                while k < tail.len() && 0x20 <= tail[k] && tail[k] <= 0x7e
                    invariant
                        k <= tail@.len(),
                        forall|i: int| 0 <= i < k ==> printable(#[trigger] tail@[i]),
                    decreases tail@.len() - k,
                {
                    k = k + 1;
                }
                proof {
                    prefix_ends(rest, k as int);
                }
                if k > 0 {
                    let run: &[u8] = vstd::slice::slice_subrange(tail, 0, k);
                    assert(run@ =~= rest.take(k as int));
                    self.dispatch(run, grid, state, dirty);
                    proof {
                        if plain {
                            let done = bytes@.take(offset as int);
                            text_goes_on(start.screen, now, done, run@);
                            assert(done + run@ =~= bytes@.take(offset + k));
                        }
                    }
                    offset = offset + k;
                    if offset >= len {
                        assert(bytes@.skip(offset as int) =~= Seq::empty());
                        continue;
                    }
                }
                assert(!printable(bytes@[offset as int]));
                let one: &[u8] = vstd::slice::slice_subrange(tail, k, k + 1);
                assert(one@ =~= rest.subrange(k as int, k + 1));
                self.dispatch(one, grid, state, dirty);
                offset = offset + 1;
                assert(bytes@.skip(offset as int) =~= rest.skip(k + 1));
            } else {
                // Mid-escape: feed one byte at a time to see the return to ground at once.
                let one: &[u8] = vstd::slice::slice_subrange(tail, 0, 1);
                assert(one@ =~= rest.take(1));
                self.dispatch(one, grid, state, dirty);
                offset = offset + 1;
                assert(bytes@.skip(offset as int) =~= rest.skip(1));
            }
        }
        assert(bytes@.skip(offset as int) =~= Seq::empty());
        assert(bytes@.take(offset as int) =~= bytes@);
    }
}

impl Default for VtParser {
    fn default() -> (parser: VtParser)
        ensures
            parser.wf(),
            parser@ == Seq::<Seq<u8>>::empty(),
    {
        VtParser::new()
    }
}

} // verus!
