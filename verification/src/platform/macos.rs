//! The macOS desktop: what keys mean, what may be inserted where, and what the menu-bar
//! shell does about each event. Times are milliseconds of one steady clock.
use crate::capture::{since, CANCEL, FINISH};
use crate::dictation::{
    accepting, after, awaits, flags_request, CompletionEffect, Dictation, Model, Op, Phase,
};
use crate::insertion::{
    allowed, input_role, insertion_allowed, is_text_role, keeps_secret, secret_name, secure_field,
    text_role, typeable, Target,
};
use crate::space_hotkey::{Command, Key};
use crate::text::{blank, occurs_at, owned_view, same};
use vstd::prelude::*;

verus! {

/// The event that modifier keys changed.
pub const FLAGS_CHANGED: u32 = 12;

/// The event that a key went down.
pub const KEY_DOWN: u32 = 10;

/// The two events by which the system says that it took the tap away.
pub const TAP_TIMED_OUT: u32 = 0xffff_fffe;

pub const TAP_DISABLED: u32 = 0xffff_ffff;

/// The key code of Escape.
pub const ESCAPE: i64 = 53;

/// The flag of either Control key.
pub const CONTROL_FLAG: u64 = 0x4_0000;

/// The flags of Shift, Option, Command and Fn.
pub const OTHER_FLAGS: u64 = 0x9a_0000;

/// What an event of the keyboard is.
#[derive(Clone, Copy, Debug, PartialEq, Eq, Structural)]
pub enum Press {
    /// The tap was taken away.
    Disabled,
    /// Nothing that matters here.
    Ignored,
    Key(Key),
}

/// Control is among the flags.
pub open spec fn control_held(flags: u64) -> bool {
    flags & CONTROL_FLAG != 0
}

/// A modifier besides Control is among the flags.
pub open spec fn other_held(flags: u64) -> bool {
    flags & OTHER_FLAGS != 0
}

/// Whether Control is held. Both Control keys count: their flag is read, not their code.
#[derive(Clone, Copy, Debug, PartialEq, Eq, Structural)]
pub struct Keyboard {
    pub control_down: bool,
}

impl Keyboard {
    /// What an event is.
    pub open spec fn meaning(self, kind: u32, code: i64, flags: u64, busy: bool) -> Press {
        if kind == TAP_TIMED_OUT || kind == TAP_DISABLED {
            Press::Disabled
        } else if kind == FLAGS_CHANGED {
            if control_held(flags) && !self.control_down {
                if other_held(flags) || busy {
                    Press::Key(Key::ModifiedDown)
                } else {
                    Press::Key(Key::Down)
                }
            } else if !control_held(flags) && self.control_down {
                Press::Key(Key::Up)
            } else if control_held(flags) && other_held(flags) {
                Press::Key(Key::Other)
            } else {
                Press::Ignored
            }
        } else if kind == KEY_DOWN {
            if code == ESCAPE {
                Press::Key(Key::Escape)
            } else if self.control_down {
                Press::Key(Key::Other)
            } else {
                Press::Ignored
            }
        } else {
            Press::Ignored
        }
    }

    /// What is known of Control after an event.
    pub open spec fn held_after(self, kind: u32, flags: u64) -> Keyboard {
        if kind == FLAGS_CHANGED {
            Keyboard { control_down: control_held(flags) }
        } else {
            self
        }
    }

    /// Takes an event; `busy` says that a dictation is being transcribed.
    pub fn press(&mut self, kind: u32, code: i64, flags: u64, busy: bool) -> (r: Press)
        ensures
            r == old(self).meaning(kind, code, flags, busy),
            *final(self) == old(self).held_after(kind, flags),
    {
        if kind == TAP_TIMED_OUT || kind == TAP_DISABLED {
            return Press::Disabled;
        }
        let other = flags & OTHER_FLAGS != 0;
        if kind == FLAGS_CHANGED {
            let held = flags & CONTROL_FLAG != 0;
            let was_held = self.control_down;
            self.control_down = held;
            if held && !was_held {
                return Press::Key(
                    if other || busy {
                        Key::ModifiedDown
                    } else {
                        Key::Down
                    },
                );
            }
            if !held && was_held {
                return Press::Key(Key::Up);
            }
            if held && other {
                return Press::Key(Key::Other);
            }
            return Press::Ignored;
        }
        if kind == KEY_DOWN {
            if code == ESCAPE {
                return Press::Key(Key::Escape);
            }
            if self.control_down {
                return Press::Key(Key::Other);
            }
        }
        Press::Ignored
    }
}

/// Control goes up only where it is down, and down only where it is up.
pub proof fn control_alternates(keyboard: Keyboard, kind: u32, code: i64, flags: u64, busy: bool)
    ensures
        keyboard.meaning(kind, code, flags, busy) == Press::Key(Key::Up) ==> keyboard.control_down
            && !keyboard.held_after(kind, flags).control_down,
        keyboard.meaning(kind, code, flags, busy) == Press::Key(Key::Down) || keyboard.meaning(
            kind,
            code,
            flags,
            busy,
        ) == Press::Key(Key::ModifiedDown) ==> !keyboard.control_down && keyboard.held_after(
            kind,
            flags,
        ).control_down,
{
}

/// While Control is up, typing is not looked at: only Escape is.
pub proof fn typing_is_ignored(code: i64, flags: u64, busy: bool)
    requires
        code != ESCAPE,
    ensures
        (Keyboard { control_down: false }).meaning(KEY_DOWN, code, flags, busy) == Press::Ignored,
{
}

/// No dictation begins while another is transcribed, or with another modifier held.
pub proof fn busy_or_modified_presses_start_nothing(
    keyboard: Keyboard,
    kind: u32,
    code: i64,
    flags: u64,
    busy: bool,
)
    requires
        busy || other_held(flags),
    ensures
        keyboard.meaning(kind, code, flags, busy) != Press::Key(Key::Down),
{
}

/// What the keyboard tells the shell.
#[derive(Clone, Copy, Debug, PartialEq, Eq, Structural)]
pub enum Input {
    /// The key that dictates is down or up, with or without another modifier.
    Flags(bool, bool),
    /// Control went down and may become a dictation.
    HotkeyDown,
    Cancel,
    TapDisabled,
}

/// What a command of the held key tells the shell.
pub open spec fn input_for(command: Command) -> Input {
    match command {
        Command::Start => Input::Flags(true, false),
        Command::Finish => Input::Flags(false, false),
        Command::Cancel => Input::Cancel,
    }
}

impl Input {
    /// What a command of the held key tells the shell.
    pub fn of(command: Command) -> (r: Input)
        ensures
            r == input_for(command),
    {
        match command {
            Command::Start => Input::Flags(true, false),
            Command::Finish => Input::Flags(false, false),
            Command::Cancel => Input::Cancel,
        }
    }
}

/// The field that has the focus, by what Accessibility says of it.
pub open spec fn target_of(
    pid: i32,
    element: u64,
    role: Seq<char>,
    subrole: Seq<char>,
) -> Target {
    Target {
        pid,
        element,
        secure: keeps_secret(role, subrole),
        editable: is_text_role(role, subrole),
    }
}

/// The field that has the focus, by what Accessibility says of it.
pub fn target(pid: i32, element: u64, role: &str, subrole: &str) -> (r: Target)
    ensures
        r == (Target {
            pid,
            element,
            secure: secret_name(role@) || secret_name(subrole@),
            editable: is_text_role(role@, subrole@),
        }),
        r == target_of(pid, element, role@, subrole@),
{
    Target {
        pid,
        element,
        secure: secure_field(role, subrole),
        editable: text_role(role, subrole),
    }
}

/// What is said where a text may not be inserted.
pub open spec fn blocked() -> Seq<char> {
    "Insertion blocked: focus changed or field unsupported. Use Copy Last Transcript."@
}

/// The text may go from the one field to the other, which is the same by its identity.
pub open spec fn insertable(
    before: Target,
    now: Target,
    identical: bool,
    text: Seq<char>,
) -> bool {
    insertion_allowed(before, now, text) && identical
}

/// `text` may go into the field that has the focus now: it is the one that had it when the
/// dictation began, by its description and, as `identical` says, by its identity.
pub fn check_insertion(before: &Target, now: &Target, identical: bool, text: &str) -> (r: Result<
    (),
    String,
>)
    ensures
        r is Ok <==> insertion_allowed(*before, *now, text@) && identical,
        r is Err ==> r->Err_0@ == blocked(),
        r is Ok <==> insertable(*before, *now, identical, text@),
{
    if !allowed(before, now, text) || !identical {
        return Err(
            "Insertion blocked: focus changed or field unsupported. Use Copy Last Transcript.".to_owned(),
        );
    }
    Ok(())
}

/// What stands in the way of a paste.
#[derive(Clone, Copy, Debug, PartialEq, Eq, Structural)]
pub enum PasteFailure {
    MultipleItems,
    CannotPreserve,
    NoShortcut,
}

impl PasteFailure {
    /// What the user reads.
    pub open spec fn words(self) -> Seq<char> {
        match self {
            PasteFailure::MultipleItems =>
                "Use Copy Last Transcript (clipboard has multiple items)"@,
            PasteFailure::CannotPreserve => "Cannot preserve clipboard; use Copy Last Transcript"@,
            PasteFailure::NoShortcut => "Cannot create paste shortcut"@,
        }
    }

    /// What the user reads.
    pub fn message(self) -> (r: &'static str)
        ensures
            r@ == self.words(),
    {
        match self {
            PasteFailure::MultipleItems =>
                "Use Copy Last Transcript (clipboard has multiple items)",
            PasteFailure::CannotPreserve => "Cannot preserve clipboard; use Copy Last Transcript",
            PasteFailure::NoShortcut => "Cannot create paste shortcut",
        }
    }
}

/// Every type of data on the clipboard could be kept.
pub open spec fn all_kept<D>(data: Seq<Option<D>>) -> bool {
    forall|i: int| 0 <= i < data.len() ==> (#[trigger] data[i]) is Some
}

/// What stands in the way of a paste, if anything.
pub open spec fn paste_verdict<D>(
    items: usize,
    kept: Seq<Option<D>>,
    shortcut: bool,
) -> Result<(), PasteFailure> {
    if items > 1 {
        Err(PasteFailure::MultipleItems)
    } else if !all_kept(kept) {
        Err(PasteFailure::CannotPreserve)
    } else if !shortcut {
        Err(PasteFailure::NoShortcut)
    } else {
        Ok(())
    }
}

/// The clipboard may be overwritten by a paste: it has at most one item, all its data could
/// be kept, and the shortcut's two events could be made.
pub fn check_paste<D>(items: usize, kept: &[Option<D>], shortcut: bool) -> (r: Result<
    (),
    PasteFailure,
>)
    ensures
        r == if items > 1 {
            Err::<(), PasteFailure>(PasteFailure::MultipleItems)
        } else if !all_kept(kept@) {
            Err(PasteFailure::CannotPreserve)
        } else if !shortcut {
            Err(PasteFailure::NoShortcut)
        } else {
            Ok(())
        },
        r == paste_verdict(items, kept@, shortcut),
{
    if items > 1 {
        return Err(PasteFailure::MultipleItems);
    }
    let mut i: usize = 0;
    while i < kept.len()
        invariant
            i <= kept@.len(),
            items <= 1,
            forall|j: int| 0 <= j < i ==> (#[trigger] kept@[j]) is Some,
        decreases kept.len() - i,
    {
        if kept[i].is_none() {
            assert(kept@[i as int] is None);
            return Err(PasteFailure::CannotPreserve);
        }
        i += 1;
    }
    if !shortcut {
        return Err(PasteFailure::NoShortcut);
    }
    Ok(())
}

/// What the clipboard held before a paste may be put back: nobody changed it since.
pub fn may_restore(written: i64, now: i64) -> (r: bool)
    ensures
        r == (written == now),
{
    written == now
}

/// What the indicator's label shows of a message: messages that do not fit are for the menu.
pub open spec fn label(message: Seq<char>) -> Seq<char> {
    if message.len() > 42 {
        "⚠ Check Control menu for details"@
    } else {
        message
    }
}

/// What the indicator's label shows of a message.
pub fn label_for(message: &str) -> (r: String)
    ensures
        r@ == label(message@),
{
    if message.unicode_len() > 42 {
        "⚠ Check Control menu for details".to_owned()
    } else {
        message.to_owned()
    }
}

/// How long a passing message stays.
pub const MESSAGE_MS: u64 = 5_000;

/// How long a dictation may last.
pub const LIMIT_MS: u64 = 120_000;

/// How long to wait before the keyboard is asked for again.
pub const RETRY_MS: u64 = 3_000;

/// When a trial run begins its dictation, and how long that lasts.
pub const SMOKE_START_MS: u64 = 2_000;

pub const SMOKE_STOP_MS: u64 = 10_000;

/// How long one picture of the level meter stays.
pub const FRAME_MS: u64 = 160;

/// What the shell asks the system to do.
#[derive(Debug)]
pub enum Effect {
    /// Tell the running attempt: go on, finish or cancel.
    Control(u8),
    /// Forget the field that had the focus.
    DropFocus,
    /// Show a message in the menu and, as far as it fits, in the indicator.
    Show(String),
    /// Look at the focused field and the microphone's permission, then start.
    Begin,
    /// Make ready for an attempt, and keep the focused field if so told.
    Attempt(bool),
    /// Run the attempt of this number.
    Spawn(u64),
    /// Insert a transcript into the field that was kept, and tell how that went.
    Insert(String),
    /// Put a transcript on the clipboard.
    Copy(String),
    RequestMicrophone,
    OpenSettings,
    EnableTap,
    Quit,
}

pub ghost enum EffectModel {
    Control(u8),
    DropFocus,
    Show(Seq<char>),
    Begin,
    Attempt(bool),
    Spawn(int),
    Insert(Seq<char>),
    Copy(Seq<char>),
    RequestMicrophone,
    OpenSettings,
    EnableTap,
    Quit,
}

impl View for Effect {
    type V = EffectModel;

    open spec fn view(&self) -> EffectModel {
        match *self {
            Effect::Control(control) => EffectModel::Control(control),
            Effect::DropFocus => EffectModel::DropFocus,
            Effect::Show(message) => EffectModel::Show(message@),
            Effect::Begin => EffectModel::Begin,
            Effect::Attempt(keep) => EffectModel::Attempt(keep),
            Effect::Spawn(id) => EffectModel::Spawn(id as int),
            Effect::Insert(text) => EffectModel::Insert(text@),
            Effect::Copy(text) => EffectModel::Copy(text@),
            Effect::RequestMicrophone => EffectModel::RequestMicrophone,
            Effect::OpenSettings => EffectModel::OpenSettings,
            Effect::EnableTap => EffectModel::EnableTap,
            Effect::Quit => EffectModel::Quit,
        }
    }
}

/// The views of effects.
pub open spec fn effects(list: Seq<Effect>) -> Seq<EffectModel> {
    list.map_values(|e: Effect| e@)
}

/// What was found to have the focus.
#[derive(Clone, Copy, Debug, PartialEq, Eq, Structural)]
pub enum Field {
    /// A text can be inserted.
    Open,
    /// Its contents are secret.
    Secure,
    /// None, or one that takes no text.
    Unusable,
}

/// What a focused field is good for.
pub open spec fn field_of(target: Option<Target>) -> Field {
    match target {
        Some(t) => if t.secure {
            Field::Secure
        } else if t.editable {
            Field::Open
        } else {
            Field::Unusable
        },
        None => Field::Unusable,
    }
}

impl Field {
    /// What a focused field is good for.
    pub fn of(target: Option<&Target>) -> (r: Field)
        ensures
            r == match target {
                Some(t) => field_of(Some(*t)),
                None => field_of(None),
            },
    {
        match target {
            Some(t) => if t.secure {
                Field::Secure
            } else if t.editable {
                Field::Open
            } else {
                Field::Unusable
            },
            None => Field::Unusable,
        }
    }
}

/// The state of the shell.
pub ghost struct Desk {
    pub dictation: Model,
    /// A field is kept for the transcript.
    pub focused: bool,
    /// The last transcript.
    pub last: Seq<char>,
    /// The message that is shown.
    pub message: Seq<char>,
    /// When the attempt began.
    pub started: u64,
    /// When the message passes.
    pub hide_at: Option<u64>,
    /// When the keyboard was last asked for.
    pub retry_at: u64,
    /// This is a trial run.
    pub smoke: bool,
    pub smoke_started: bool,
    pub launched: u64,
}

/// The state after an event, and what the event asks for.
pub type Turn = (Desk, Seq<EffectModel>);

/// The state when a message is shown.
pub open spec fn showing(desk: Desk, message: Seq<char>, passing: bool, now: u64) -> Desk {
    Desk {
        message,
        hide_at: if passing {
            Some((now + MESSAGE_MS) as u64)
        } else {
            None
        },
        ..desk
    }
}

/// A turn that ends with a message.
pub open spec fn with_message(turn: Turn, message: Seq<char>, passing: bool, now: u64) -> Turn {
    (showing(turn.0, message, passing, now), turn.1.push(EffectModel::Show(message)))
}

/// A turn that ends with one more effect.
pub open spec fn with_effect(turn: Turn, effect: EffectModel) -> Turn {
    (turn.0, turn.1.push(effect))
}

/// Dictation is cancelled.
pub open spec fn cancelling(desk: Desk, now: u64) -> Turn {
    let told = seq![EffectModel::Control(CANCEL)];
    if desk.dictation.phase == Phase::Idle {
        (desk, told)
    } else {
        with_message(
            (
                Desk { dictation: after(desk.dictation, Op::Cancel), focused: false, ..desk },
                told.push(EffectModel::DropFocus),
            ),
            "Cancelled"@,
            true,
            now,
        )
    }
}

/// A dictation begins, once the focus and the permission are known.
pub open spec fn starting(desk: Desk, field: Field, permitted: bool, now: u64) -> Turn {
    if field == Field::Secure {
        with_message(
            cancelling(desk, now),
            "Choose a supported text field. Password fields are blocked."@,
            true,
            now,
        )
    } else if !permitted {
        let cancelled = cancelling(desk, now);
        with_message(
            (cancelled.0, seq![EffectModel::RequestMicrophone] + cancelled.1),
            "Use Set up permissions in the Control menu, then try again."@,
            true,
            now,
        )
    } else {
        with_effect(
            with_message(
                (
                    Desk {
                        focused: field == Field::Open,
                        started: now,
                        last: Seq::empty(),
                        ..desk
                    },
                    seq![EffectModel::Attempt(field == Field::Open)],
                ),
                "◌ Starting microphone…"@,
                false,
                now,
            ),
            EffectModel::Spawn(desk.dictation.generation),
        )
    }
}

/// The recording ends and its transcript is awaited.
pub open spec fn finishing(desk: Desk, now: u64) -> Turn {
    with_message(
        (desk, seq![EffectModel::Control(FINISH)]),
        "Finishing… · Esc to cancel"@,
        false,
        now,
    )
}

/// The keyboard says something.
pub open spec fn hearing(desk: Desk, input: Input, now: u64) -> Turn {
    match input {
        Input::HotkeyDown => with_message(
            (desk, seq![]),
            "◌ Control held — keep holding"@,
            true,
            now,
        ),
        Input::Flags(down, other) => {
            let request = flags_request(desk.dictation, down, other);
            let next = Desk {
                dictation: after(
                    desk.dictation,
                    Op::Flags { key_down: down, other_modifier: other },
                ),
                ..desk
            };
            if request == Some("start"@) {
                (next, seq![EffectModel::Begin])
            } else if request == Some("finish"@) {
                finishing(next, now)
            } else if request == Some("cancel"@) {
                with_message(
                    (
                        Desk { focused: false, ..next },
                        seq![EffectModel::Control(CANCEL), EffectModel::DropFocus],
                    ),
                    "Cancelled Control shortcut"@,
                    true,
                    now,
                )
            } else {
                (next, seq![])
            }
        },
        Input::Cancel => cancelling(desk, now),
        Input::TapDisabled => with_effect(cancelling(desk, now), EffectModel::EnableTap),
    }
}

/// A dictation is asked for without the key.
pub open spec fn manual(desk: Desk) -> Turn {
    if desk.dictation.phase == Phase::Idle {
        (
            Desk { dictation: after(desk.dictation, Op::StartManual), ..desk },
            seq![EffectModel::Begin],
        )
    } else {
        (desk, seq![])
    }
}

/// The end of the recording is asked for without the key.
pub open spec fn stopping(desk: Desk, now: u64) -> Turn {
    if desk.dictation.phase == Phase::Recording {
        finishing(Desk { dictation: after(desk.dictation, Op::Stop), ..desk }, now)
    } else {
        (desk, seq![])
    }
}

/// An item of the menu was chosen.
pub open spec fn choosing(desk: Desk, item: Seq<char>, now: u64) -> Turn {
    if item == "start"@ {
        manual(desk)
    } else if item == "stop"@ {
        stopping(desk, now)
    } else if item == "cancel"@ {
        cancelling(desk, now)
    } else if item == "copy"@ {
        if desk.last.len() > 0 {
            with_message(
                (desk, seq![EffectModel::Copy(desk.last)]),
                "Transcript copied"@,
                true,
                now,
            )
        } else {
            (desk, seq![])
        }
    } else if item == "setup"@ {
        with_message(
            with_effect(
                with_effect(cancelling(desk, now), EffectModel::RequestMicrophone),
                EffectModel::OpenSettings,
            ),
            "Enable Accessibility. Keep Wispr Flow on Fn; hold Control here."@,
            true,
            now,
        )
    } else if item == "quit"@ {
        (desk, seq![EffectModel::Control(CANCEL), EffectModel::Quit])
    } else {
        (desk, seq![])
    }
}

/// The trial run begins its dictation.
pub open spec fn trying(desk: Desk, now: u64) -> Turn {
    if desk.smoke && !desk.smoke_started && since(desk.launched, now) > SMOKE_START_MS {
        manual(Desk { smoke_started: true, ..desk })
    } else {
        (desk, seq![])
    }
}

/// The trial run ends its dictation.
pub open spec fn trying_end(desk: Desk, now: u64) -> Turn {
    if desk.smoke && since(desk.started, now) > SMOKE_STOP_MS {
        stopping(desk, now)
    } else {
        (desk, seq![])
    }
}

/// A dictation at its longest duration ends.
pub open spec fn limiting(desk: Desk, now: u64) -> Turn {
    if since(desk.started, now) >= LIMIT_MS {
        stopping(desk, now)
    } else {
        (desk, seq![])
    }
}

/// The result of an attempt arrives.
pub open spec fn completing(
    desk: Desk,
    id: int,
    result: Result<Seq<char>, Seq<char>>,
    spoken: bool,
    now: u64,
) -> Turn {
    if !awaits(desk.dictation, id) {
        (desk, seq![])
    } else {
        let done = Desk {
            dictation: after(desk.dictation, Op::Complete { id }),
            focused: false,
            ..desk
        };
        let turn = match result {
            Ok(text) => if accepting(desk.dictation, id) && spoken {
                if desk.focused {
                    (Desk { last: text, ..done }, seq![EffectModel::Insert(text)])
                } else {
                    with_message(
                        (Desk { last: text, ..done }, seq![]),
                        "Transcript ready — choose Copy Last Transcript"@,
                        true,
                        now,
                    )
                }
            } else {
                with_message((done, seq![]), "No speech detected"@, true, now)
            },
            Err(message) => with_message((done, seq![]), message, true, now),
        };
        with_effect(turn, EffectModel::DropFocus)
    }
}

/// The keyboard was asked for again.
pub open spec fn retrying(desk: Desk, created: bool, now: u64) -> Turn {
    let tried = Desk { retry_at: now, ..desk };
    if !created && occurs_at(desk.message, "Hold Control"@, 0) {
        with_message(
            (tried, seq![]),
            "Keyboard access unavailable — use Start dictation in the Control menu"@,
            false,
            now,
        )
    } else {
        (tried, seq![])
    }
}

/// The message is due to pass.
pub open spec fn passing(desk: Desk, listening: bool, now: u64) -> Turn {
    if desk.hide_at matches Some(at) && now >= at {
        with_message(
            (desk, seq![]),
            if listening {
                "● Ready · hold Control"@
            } else {
                "⚠ Keyboard permission needed"@
            },
            false,
            now,
        )
    } else {
        (desk, seq![])
    }
}

/// The menu-bar shell.
#[derive(Debug)]
pub struct Shell {
    dictation: Dictation,
    focused: bool,
    last: String,
    message: String,
    started: u64,
    hide_at: Option<u64>,
    retry_at: u64,
    smoke: bool,
    smoke_started: bool,
    launched: u64,
}

impl View for Shell {
    type V = Desk;

    closed spec fn view(&self) -> Desk {
        Desk {
            dictation: self.dictation@,
            focused: self.focused,
            last: self.last@,
            message: self.message@,
            started: self.started,
            hide_at: self.hide_at,
            retry_at: self.retry_at,
            smoke: self.smoke,
            smoke_started: self.smoke_started,
            launched: self.launched,
        }
    }
}

/// The attempt that the turn leaves has a number that a machine integer holds.
pub open spec fn countable(turn: Turn) -> bool {
    turn.0.dictation.generation <= u64::MAX
}

impl Shell {
    /// The shell at its launch; `smoke` makes it a trial run.
    pub fn new(smoke: bool, now: u64) -> (r: Shell)
        ensures
            r@ == (Desk {
                dictation: (Model { phase: Phase::Idle, held: false, generation: 0 }),
                focused: false,
                last: Seq::empty(),
                message: Seq::empty(),
                started: now,
                hide_at: None,
                retry_at: now,
                smoke,
                smoke_started: false,
                launched: now,
            }),
    {
        let r = Shell {
            dictation: Dictation::default(),
            focused: false,
            last: String::new(),
            message: String::new(),
            started: now,
            hide_at: None,
            retry_at: now,
            smoke,
            smoke_started: false,
            launched: now,
        };
        assert(r@.last =~= Seq::<char>::empty());
        assert(r@.message =~= Seq::<char>::empty());
        r
    }

    /// The number of the current attempt.
    pub fn generation(&self) -> (r: u64)
        ensures
            r == self@.dictation.generation,
    {
        self.dictation.generation()
    }

    /// A dictation is being transcribed.
    pub fn busy(&self) -> (r: bool)
        ensures
            r == (self@.dictation.phase == Phase::Processing),
    {
        self.dictation.phase() == Phase::Processing
    }

    /// Shows a message; a passing one gives way to the usual one after a while.
    pub fn show(&mut self, message: &str, passing: bool, now: u64) -> (r: Effect)
        requires
            now + MESSAGE_MS <= u64::MAX,
        ensures
            final(self)@ == showing(old(self)@, message@, passing, now),
            r@ == EffectModel::Show(message@),
    {
        self.message = message.to_owned();
        self.hide_at = if passing {
            Some(now + MESSAGE_MS)
        } else {
            None
        };
        Effect::Show(message.to_owned())
    }

    /// Cancels the dictation.
    pub fn cancel(&mut self, now: u64) -> (r: Vec<Effect>)
        requires
            now + MESSAGE_MS <= u64::MAX,
            countable(cancelling(old(self)@, now)),
        ensures
            (final(self)@, effects(r@)) == cancelling(old(self)@, now),
    {
        let mut out: Vec<Effect> = Vec::new();
        out.push(Effect::Control(CANCEL));
        if self.dictation.cancel() {
            self.focused = false;
            out.push(Effect::DropFocus);
            let shown = self.show("Cancelled", true, now);
            out.push(shown);
        }
        assert(effects(out@) =~= cancelling(old(self)@, now).1);
        out
    }

    /// Starts the dictation that `Begin` asked for.
    pub fn start(&mut self, field: Field, permitted: bool, now: u64) -> (r: Vec<Effect>)
        requires
            now + MESSAGE_MS <= u64::MAX,
            countable(starting(old(self)@, field, permitted, now)),
        ensures
            (final(self)@, effects(r@)) == starting(old(self)@, field, permitted, now),
    {
        if field == Field::Secure {
            let mut out = self.cancel(now);
            let ghost before = out@;
            let shown = self.show(
                "Choose a supported text field. Password fields are blocked.",
                true,
                now,
            );
            out.push(shown);
            assert(effects(out@) =~= effects(before).push(out@.last()@));
            return out;
        }
        if !permitted {
            let mut out: Vec<Effect> = Vec::new();
            out.push(Effect::RequestMicrophone);
            let mut rest = self.cancel(now);
            let ghost cancelled = rest@;
            out.append(&mut rest);
            let shown = self.show(
                "Use Set up permissions in the Control menu, then try again.",
                true,
                now,
            );
            out.push(shown);
            assert(effects(out@) =~= (seq![EffectModel::RequestMicrophone] + effects(
                cancelled,
            )).push(out@.last()@));
            return out;
        }
        let keep = field == Field::Open;
        self.focused = keep;
        self.started = now;
        self.last = String::new();
        assert(self@.last =~= Seq::<char>::empty());
        let mut out: Vec<Effect> = Vec::new();
        out.push(Effect::Attempt(keep));
        let shown = self.show("◌ Starting microphone…", false, now);
        out.push(shown);
        out.push(Effect::Spawn(self.dictation.generation()));
        assert(effects(out@) =~= starting(old(self)@, field, permitted, now).1);
        out
    }

    fn finish(&mut self, now: u64) -> (r: Vec<Effect>)
        requires
            now + MESSAGE_MS <= u64::MAX,
        ensures
            (final(self)@, effects(r@)) == finishing(old(self)@, now),
    {
        let mut out: Vec<Effect> = Vec::new();
        out.push(Effect::Control(FINISH));
        let shown = self.show("Finishing… · Esc to cancel", false, now);
        out.push(shown);
        assert(effects(out@) =~= finishing(old(self)@, now).1);
        out
    }

    fn start_manual(&mut self) -> (r: Vec<Effect>)
        requires
            countable(manual(old(self)@)),
        ensures
            (final(self)@, effects(r@)) == manual(old(self)@),
    {
        let mut out: Vec<Effect> = Vec::new();
        if self.dictation.start_manual() {
            out.push(Effect::Begin);
        }
        assert(effects(out@) =~= manual(old(self)@).1);
        out
    }

    fn stop(&mut self, now: u64) -> (r: Vec<Effect>)
        requires
            now + MESSAGE_MS <= u64::MAX,
        ensures
            (final(self)@, effects(r@)) == stopping(old(self)@, now),
    {
        if self.dictation.stop() {
            return self.finish(now);
        }
        let out: Vec<Effect> = Vec::new();
        assert(effects(out@) =~= seq![]);
        out
    }

    /// The keyboard says something.
    pub fn input(&mut self, input: Input, now: u64) -> (r: Vec<Effect>)
        requires
            now + MESSAGE_MS <= u64::MAX,
            countable(hearing(old(self)@, input, now)),
        ensures
            (final(self)@, effects(r@)) == hearing(old(self)@, input, now),
    {
        proof {
            reveal_strlit("start");
            reveal_strlit("finish");
            reveal_strlit("cancel");
            assert("start"@[0] == 's' && "finish"@[0] == 'f' && "cancel"@[0] == 'c');
        }
        let mut out: Vec<Effect> = Vec::new();
        match input {
            Input::HotkeyDown => {
                let shown = self.show("◌ Control held — keep holding", true, now);
                out.push(shown);
            },
            Input::Flags(down, other) => {
                match self.dictation.flags(down, other) {
                    Some(request) => {
                        if same(request, "start") {
                            out.push(Effect::Begin);
                        } else if same(request, "finish") {
                            return self.finish(now);
                        } else if same(request, "cancel") {
                            self.focused = false;
                            out.push(Effect::Control(CANCEL));
                            out.push(Effect::DropFocus);
                            let shown = self.show("Cancelled Control shortcut", true, now);
                            out.push(shown);
                        }
                    },
                    None => {},
                }
            },
            Input::Cancel => {
                return self.cancel(now);
            },
            Input::TapDisabled => {
                let mut cancelled = self.cancel(now);
                let ghost before = cancelled@;
                cancelled.push(Effect::EnableTap);
                assert(effects(cancelled@) =~= effects(before).push(EffectModel::EnableTap));
                return cancelled;
            },
        }
        assert(effects(out@) =~= hearing(old(self)@, input, now).1);
        out
    }

    /// So many inputs came that some were lost.
    pub fn overflow(&mut self, now: u64) -> (r: Vec<Effect>)
        requires
            now + MESSAGE_MS <= u64::MAX,
            countable(cancelling(old(self)@, now)),
        ensures
            (final(self)@, effects(r@)) == with_message(
                cancelling(old(self)@, now),
                "Input queue overflow; dictation cancelled"@,
                true,
                now,
            ),
    {
        let mut out = self.cancel(now);
        let ghost before = out@;
        let shown = self.show("Input queue overflow; dictation cancelled", true, now);
        out.push(shown);
        assert(effects(out@) =~= effects(before).push(out@.last()@));
        out
    }

    /// An item of the menu was chosen.
    pub fn menu(&mut self, item: &str, now: u64) -> (r: Vec<Effect>)
        requires
            now + MESSAGE_MS <= u64::MAX,
            countable(choosing(old(self)@, item@, now)),
        ensures
            (final(self)@, effects(r@)) == choosing(old(self)@, item@, now),
    {
        let mut out: Vec<Effect> = Vec::new();
        if same(item, "start") {
            return self.start_manual();
        } else if same(item, "stop") {
            return self.stop(now);
        } else if same(item, "cancel") {
            return self.cancel(now);
        } else if same(item, "copy") {
            if self.last.as_str().unicode_len() > 0 {
                out.push(Effect::Copy(self.last.as_str().to_owned()));
                let shown = self.show("Transcript copied", true, now);
                out.push(shown);
            }
        } else if same(item, "setup") {
            let mut cancelled = self.cancel(now);
            let ghost before = cancelled@;
            cancelled.push(Effect::RequestMicrophone);
            cancelled.push(Effect::OpenSettings);
            let shown = self.show(
                "Enable Accessibility. Keep Wispr Flow on Fn; hold Control here.",
                true,
                now,
            );
            cancelled.push(shown);
            assert(effects(cancelled@) =~= effects(before).push(
                EffectModel::RequestMicrophone,
            ).push(EffectModel::OpenSettings).push(cancelled@.last()@));
            return cancelled;
        } else if same(item, "quit") {
            out.push(Effect::Control(CANCEL));
            out.push(Effect::Quit);
        }
        assert(effects(out@) =~= choosing(old(self)@, item@, now).1);
        out
    }

    /// The trial run begins its dictation, once.
    pub fn try_start(&mut self, now: u64) -> (r: Vec<Effect>)
        requires
            now + MESSAGE_MS <= u64::MAX,
            countable(trying(old(self)@, now)),
        ensures
            (final(self)@, effects(r@)) == trying(old(self)@, now),
    {
        if self.smoke && !self.smoke_started && self.launched <= now && now - self.launched
            > SMOKE_START_MS {
            self.smoke_started = true;
            return self.start_manual();
        }
        let out: Vec<Effect> = Vec::new();
        assert(effects(out@) =~= seq![]);
        out
    }

    /// The trial run ends its dictation.
    pub fn try_stop(&mut self, now: u64) -> (r: Vec<Effect>)
        requires
            now + MESSAGE_MS <= u64::MAX,
        ensures
            (final(self)@, effects(r@)) == trying_end(old(self)@, now),
    {
        if self.smoke && self.started <= now && now - self.started > SMOKE_STOP_MS {
            return self.stop(now);
        }
        let out: Vec<Effect> = Vec::new();
        assert(effects(out@) =~= seq![]);
        out
    }

    /// A dictation at its longest duration ends.
    pub fn limit(&mut self, now: u64) -> (r: Vec<Effect>)
        requires
            now + MESSAGE_MS <= u64::MAX,
        ensures
            (final(self)@, effects(r@)) == limiting(old(self)@, now),
    {
        if self.started <= now && now - self.started >= LIMIT_MS {
            return self.stop(now);
        }
        let out: Vec<Effect> = Vec::new();
        assert(effects(out@) =~= seq![]);
        out
    }

    /// The result of the attempt `id` arrives.
    pub fn complete(&mut self, id: u64, result: Result<String, String>, now: u64) -> (r: Vec<
        Effect,
    >)
        requires
            now + MESSAGE_MS <= u64::MAX,
        ensures
            (final(self)@, effects(r@)) == completing(
                old(self)@,
                id as int,
                match result {
                    Ok(text) => Ok(text@),
                    Err(message) => Err(message@),
                },
                result matches Ok(text) && !blank(text@),
                now,
            ),
    {
        let mut out: Vec<Effect> = Vec::new();
        match self.dictation.complete(id, result) {
            None => {},
            Some(effect) => {
                let focused = self.focused;
                self.focused = false;
                match effect {
                    CompletionEffect::Transcript(text) => {
                        self.last = text.as_str().to_owned();
                        if focused {
                            out.push(Effect::Insert(text));
                        } else {
                            let shown = self.show(
                                "Transcript ready — choose Copy Last Transcript",
                                true,
                                now,
                            );
                            out.push(shown);
                        }
                    },
                    CompletionEffect::Empty => {
                        let shown = self.show("No speech detected", true, now);
                        out.push(shown);
                    },
                    CompletionEffect::Error(message) => {
                        let shown = self.show(message.as_str(), true, now);
                        out.push(shown);
                    },
                }
                out.push(Effect::DropFocus);
            },
        }
        assert(effects(out@) =~= completing(
            old(self)@,
            id as int,
            match result {
                Ok(text) => Ok(text@),
                Err(message) => Err(message@),
            },
            result matches Ok(text) && !blank(text@),
            now,
        ).1);
        out
    }

    /// The insertion that was asked for went so.
    pub fn inserted(&mut self, result: &Result<(), String>, now: u64) -> (r: Effect)
        requires
            now + MESSAGE_MS <= u64::MAX,
        ensures
            ({
                let message = match *result {
                    Ok(_) => "Text inserted"@,
                    Err(message) => message@,
                };
                final(self)@ == showing(old(self)@, message, true, now) && r@
                    == EffectModel::Show(message)
            }),
            r@ == EffectModel::Show(
                insertion_words(
                    match *result {
                        Ok(_) => None,
                        Err(message) => Some(message@),
                    },
                ),
            ),
    {
        match result {
            Ok(_) => self.show("Text inserted", true, now),
            Err(message) => self.show(message.as_str(), true, now),
        }
    }

    /// The keyboard is to be asked for again.
    pub fn wants_tap(&self, has_tap: bool, now: u64) -> (r: bool)
        ensures
            r == (!has_tap && since(self@.retry_at, now) > RETRY_MS),
            r == tap_wanted(self@, has_tap, now),
    {
        !has_tap && self.retry_at <= now && now - self.retry_at > RETRY_MS
    }

    /// The keyboard was asked for again.
    pub fn tap_tried(&mut self, created: bool, now: u64) -> (r: Vec<Effect>)
        requires
            now + MESSAGE_MS <= u64::MAX,
        ensures
            (final(self)@, effects(r@)) == retrying(old(self)@, created, now),
    {
        self.retry_at = now;
        let mut out: Vec<Effect> = Vec::new();
        if !created && starts_with(self.message.as_str(), "Hold Control") {
            let shown = self.show(
                "Keyboard access unavailable — use Start dictation in the Control menu",
                false,
                now,
            );
            out.push(shown);
        }
        assert(effects(out@) =~= retrying(old(self)@, created, now).1);
        out
    }

    /// A message that is due gives way to the usual one; `listening` says whether the
    /// keyboard can be heard.
    pub fn pass(&mut self, listening: bool, now: u64) -> (r: Vec<Effect>)
        requires
            now + MESSAGE_MS <= u64::MAX,
        ensures
            (final(self)@, effects(r@)) == passing(old(self)@, listening, now),
    {
        let mut out: Vec<Effect> = Vec::new();
        if let Some(at) = self.hide_at {
            if now >= at {
                let shown = self.show(
                    if listening {
                        "● Ready · hold Control"
                    } else {
                        "⚠ Keyboard permission needed"
                    },
                    false,
                    now,
                );
                out.push(shown);
            }
        }
        assert(effects(out@) =~= passing(old(self)@, listening, now).1);
        out
    }

    /// What the indicator shows while audio arrives.
    pub fn meter(&self, receiving: bool, now: u64) -> (r: Option<String>)
        ensures
            match r {
                Some(text) => receiving && self@.dictation.phase == Phase::Recording && text@
                    == "● Listening  "@ + picture(since(self@.started, now)),
                None => !receiving || self@.dictation.phase != Phase::Recording,
            },
            owned_view(r) == metered(self@, receiving, now),
    {
        if !receiving || self.dictation.phase() != Phase::Recording {
            return None;
        }
        let elapsed: u64 = if self.started <= now {
            now - self.started
        } else {
            0
        };
        let n: u64 = elapsed / FRAME_MS % 4;
        let frame = if n == 0 {
            "▁ ▃ ▆ ▃ ▁"
        } else if n == 1 {
            "▃ ▆ █ ▆ ▃"
        } else if n == 2 {
            "▆ ▃ ▁ ▃ ▆"
        } else {
            "▃ ▁ ▃ ▆ █"
        };
        Some("● Listening  ".to_owned().concat(frame))
    }
}

/// The picture of the level meter after so long.
pub open spec fn picture(elapsed: int) -> Seq<char> {
    let n = elapsed / FRAME_MS as int % 4;
    if n == 0 {
        "▁ ▃ ▆ ▃ ▁"@
    } else if n == 1 {
        "▃ ▆ █ ▆ ▃"@
    } else if n == 2 {
        "▆ ▃ ▁ ▃ ▆"@
    } else {
        "▃ ▁ ▃ ▆ █"@
    }
}

/// What is said of an insertion, by its error if it failed.
pub open spec fn insertion_words(error: Option<Seq<char>>) -> Seq<char> {
    match error {
        Some(message) => message,
        None => "Text inserted"@,
    }
}

/// The keyboard is to be asked for again.
pub open spec fn tap_wanted(desk: Desk, has_tap: bool, now: u64) -> bool {
    !has_tap && since(desk.retry_at, now) > RETRY_MS
}

/// What the indicator shows while audio arrives.
pub open spec fn metered(desk: Desk, receiving: bool, now: u64) -> Option<Seq<char>> {
    if receiving && desk.dictation.phase == Phase::Recording {
        Some("● Listening  "@ + picture(since(desk.started, now)))
    } else {
        None
    }
}

fn starts_with(s: &str, pattern: &str) -> (r: bool)
    ensures
        r == occurs_at(s@, pattern@, 0),
{
    let n: usize = pattern.unicode_len();
    if s.unicode_len() < n {
        return false;
    }
    same(s.substring_char(0, n), pattern)
}

/// Everything that can happen to the shell.
pub ghost enum Happening {
    Start { field: Field, permitted: bool },
    Input(Input),
    Overflow,
    Menu(Seq<char>),
    TryStart,
    TryStop,
    Limit,
    Complete { id: int, result: Result<Seq<char>, Seq<char>>, spoken: bool },
    Inserted(Seq<char>),
    TapTried(bool),
    Pass(bool),
}

/// What a happening comes to.
pub open spec fn turn(desk: Desk, happening: Happening, now: u64) -> Turn {
    match happening {
        Happening::Start { field, permitted } => starting(desk, field, permitted, now),
        Happening::Input(input) => hearing(desk, input, now),
        Happening::Overflow => with_message(
            cancelling(desk, now),
            "Input queue overflow; dictation cancelled"@,
            true,
            now,
        ),
        Happening::Menu(item) => choosing(desk, item, now),
        Happening::TryStart => trying(desk, now),
        Happening::TryStop => trying_end(desk, now),
        Happening::Limit => limiting(desk, now),
        Happening::Complete { id, result, spoken } => completing(desk, id, result, spoken, now),
        Happening::Inserted(message) => with_message((desk, seq![]), message, true, now),
        Happening::TapTried(created) => retrying(desk, created, now),
        Happening::Pass(listening) => passing(desk, listening, now),
    }
}

/// The state after a series of happenings, each with its time.
pub open spec fn after_turns(desk: Desk, happenings: Seq<(Happening, u64)>) -> Desk
    decreases happenings.len(),
{
    if happenings.len() == 0 {
        desk
    } else {
        turn(
            after_turns(desk, happenings.drop_last()),
            happenings.last().0,
            happenings.last().1,
        ).0
    }
}

/// A transcript is to be inserted.
pub open spec fn inserts(asked: Seq<EffectModel>) -> bool {
    exists|i: int| 0 <= i < asked.len() && (#[trigger] asked[i]) is Insert
}

/// The happening is the result of the attempt `id`.
pub open spec fn is_result_of(happening: Happening, id: int) -> bool {
    happening matches Happening::Complete { id: of, .. } && of == id
}

/// The attempt `id` has ended.
pub open spec fn ended(dictation: Model, id: int) -> bool {
    dictation.generation > id || (dictation.generation == id && dictation.phase == Phase::Idle)
}

proof fn lemma_ended_stays(desk: Desk, happening: Happening, now: u64, id: int)
    requires
        ended(desk.dictation, id),
    ensures
        ended(turn(desk, happening, now).0.dictation, id),
{
}

/// Only the result of an attempt that has not ended inserts anything; by that the attempt
/// ends.
pub proof fn only_results_insert(desk: Desk, happening: Happening, now: u64)
    requires
        inserts(turn(desk, happening, now).1),
    ensures
        happening is Complete,
        desk.focused,
        accepting(desk.dictation, happening->id),
        happening->spoken,
        ended(turn(desk, happening, now).0.dictation, happening->id),
{
    let asked = turn(desk, happening, now).1;
    let i = choose|i: int| 0 <= i < asked.len() && (#[trigger] asked[i]) is Insert;
    assert(asked[i] is Insert);
}

proof fn lemma_ended_stays_throughout(desk: Desk, happenings: Seq<(Happening, u64)>, id: int)
    requires
        ended(desk.dictation, id),
    ensures
        ended(after_turns(desk, happenings).dictation, id),
    decreases happenings.len(),
{
    if happenings.len() > 0 {
        lemma_ended_stays_throughout(desk, happenings.drop_last(), id);
        lemma_ended_stays(
            after_turns(desk, happenings.drop_last()),
            happenings.last().0,
            happenings.last().1,
            id,
        );
    }
}

/// An attempt whose transcript was inserted inserts nothing again, whatever happens between
/// its first result and a second one.
pub proof fn an_attempt_inserts_once(
    desk: Desk,
    first: Happening,
    then: u64,
    between: Seq<(Happening, u64)>,
    second: Happening,
    now: u64,
)
    requires
        inserts(turn(desk, first, then).1),
        is_result_of(second, first->id),
    ensures
        !inserts(turn(after_turns(turn(desk, first, then).0, between), second, now).1),
{
    only_results_insert(desk, first, then);
    let id = first->id;
    let middle = turn(desk, first, then).0;
    lemma_ended_stays_throughout(middle, between, id);
    if inserts(turn(after_turns(middle, between), second, now).1) {
        only_results_insert(after_turns(middle, between), second, now);
    }
}

/// A cancelled attempt inserts nothing, however late its result arrives.
pub proof fn a_cancelled_attempt_inserts_nothing(
    desk: Desk,
    then: u64,
    between: Seq<(Happening, u64)>,
    result: Happening,
    now: u64,
)
    requires
        desk.dictation.phase != Phase::Idle,
        is_result_of(result, desk.dictation.generation),
    ensures
        !inserts(turn(after_turns(cancelling(desk, then).0, between), result, now).1),
{
    let id = desk.dictation.generation;
    let cancelled = cancelling(desk, then).0;
    lemma_ended_stays_throughout(cancelled, between, id);
    if inserts(turn(after_turns(cancelled, between), result, now).1) {
        only_results_insert(after_turns(cancelled, between), result, now);
    }
}

/// A field is kept for the transcript only by a start that found it open.
pub proof fn only_open_fields_are_kept(desk: Desk, happening: Happening, now: u64)
    requires
        !desk.focused,
        turn(desk, happening, now).0.focused,
    ensures
        happening matches Happening::Start { field, permitted } && field == Field::Open
            && permitted,
{
}

/// Neither a secret field nor a missing permission lets an attempt run.
pub proof fn refused_starts_run_nothing(desk: Desk, field: Field, permitted: bool, now: u64, i: int)
    requires
        field == Field::Secure || !permitted,
        0 <= i < starting(desk, field, permitted, now).1.len(),
    ensures
        !(starting(desk, field, permitted, now).1[i] is Spawn),
        starting(desk, field, permitted, now).0.dictation.phase == Phase::Idle,
{
}

/// Hold, speak, release: what was said goes into the field that had the focus, and can be
/// copied afterwards.
pub proof fn held_spoken_and_released_is_inserted(
    desk: Desk,
    text: Seq<char>,
    pressed_at: u64,
    started_at: u64,
    released_at: u64,
    done_at: u64,
)
    requires
        desk.dictation.phase == Phase::Idle,
        !desk.dictation.held,
        text.len() > 0,
    ensures
        ({
            let pressed = hearing(desk, Input::Flags(true, false), pressed_at);
            let started = starting(pressed.0, Field::Open, true, started_at);
            let released = hearing(started.0, Input::Flags(false, false), released_at);
            let id = started.0.dictation.generation;
            let done = completing(released.0, id, Ok(text), true, done_at);
            &&& pressed.1 == seq![EffectModel::Begin]
            &&& started.1.last() == EffectModel::Spawn(id)
            &&& released.1[0] == EffectModel::Control(FINISH)
            &&& done.1 == seq![EffectModel::Insert(text), EffectModel::DropFocus]
            &&& choosing(done.0, "copy"@, done_at).1[0] == EffectModel::Copy(text)
        }),
{
    reveal_strlit("start");
    reveal_strlit("stop");
    reveal_strlit("finish");
    reveal_strlit("cancel");
    reveal_strlit("copy");
    assert("start"@[2] == 'a' && "finish"@[2] == 'n' && "cancel"@[2] == 'n' && "cancel"@[0] == 'c');
    assert("copy"@.len() == 4 && "start"@.len() == 5 && "cancel"@.len() == 6 && "stop"@[0] == 's'
        && "copy"@[0] == 'c');
    assert("finish"@[0] == 'f');
    let pressed = hearing(desk, Input::Flags(true, false), pressed_at);
    assert(pressed.1 =~= seq![EffectModel::Begin]);
    let started = starting(pressed.0, Field::Open, true, started_at);
    let released = hearing(started.0, Input::Flags(false, false), released_at);
    let id = started.0.dictation.generation;
    let done = completing(released.0, id, Ok(text), true, done_at);
    assert(done.1 =~= seq![EffectModel::Insert(text), EffectModel::DropFocus]);
}

/// Control is held exactly where its bit is set, and another modifier exactly where the bit of
/// Shift, Option, Command or Fn is.
pub proof fn modifiers_are_bits(flags: u64)
    ensures
        control_held(flags) <==> (flags / 0x4_0000) % 2 == 1,
        other_held(flags) <==> (flags / 0x2_0000) % 2 == 1 || (flags / 0x8_0000) % 2 == 1 || (flags
            / 0x10_0000) % 2 == 1 || (flags / 0x80_0000) % 2 == 1,
{
    assert((flags & 0x4_0000 != 0) == ((flags / 0x4_0000) % 2 == 1)) by (bit_vector);
    assert((flags & 0x9a_0000 != 0) == ((flags / 0x2_0000) % 2 == 1 || (flags / 0x8_0000) % 2 == 1
        || (flags / 0x10_0000) % 2 == 1 || (flags / 0x80_0000) % 2 == 1)) by (bit_vector);
}

/// A change of the modifiers is a press where Control comes, a release where it goes, and
/// another key where another modifier joins it; whichever key has that code.
pub proof fn changes_of_the_modifiers_have_a_meaning(
    keyboard: Keyboard,
    code: i64,
    flags: u64,
    busy: bool,
)
    ensures
        ({
            let press = keyboard.meaning(12, code, flags, busy);
            let control = control_held(flags);
            let other = other_held(flags);
            let was = keyboard.control_down;
            &&& control && !was && !other && !busy ==> press == Press::Key(Key::Down)
            &&& control && !was && (other || busy) ==> press == Press::Key(Key::ModifiedDown)
            &&& !control && was ==> press == Press::Key(Key::Up)
            &&& control && was && other ==> press == Press::Key(Key::Other)
            &&& control && was && !other ==> press == Press::Ignored
            &&& !control && !was ==> press == Press::Ignored
            &&& keyboard.held_after(12, flags).control_down == control
        }),
{
}

/// Escape is Escape at any time; any other key counts while Control is held; other events but
/// the loss of the tap do not count, and none but a change of the modifiers changes what is
/// known of Control.
pub proof fn keys_have_a_meaning(keyboard: Keyboard, kind: u32, code: i64, flags: u64, busy: bool)
    ensures
        keyboard.meaning(10, 53, flags, busy) == Press::Key(Key::Escape),
        code != 53 && keyboard.control_down ==> keyboard.meaning(10, code, flags, busy)
            == Press::Key(Key::Other),
        code != 53 && !keyboard.control_down ==> keyboard.meaning(10, code, flags, busy)
            == Press::Ignored,
        keyboard.meaning(0xffff_fffe, code, flags, busy) == Press::Disabled,
        keyboard.meaning(0xffff_ffff, code, flags, busy) == Press::Disabled,
        kind != 10 && kind != 12 && kind != 0xffff_fffe && kind != 0xffff_ffff ==> keyboard.meaning(
            kind,
            code,
            flags,
            busy,
        ) == Press::Ignored,
        kind != 12 ==> keyboard.held_after(kind, flags) == keyboard,
{
}

/// Starting presses the key alone for the shell, finishing releases it, and cancelling cancels.
pub proof fn commands_tell_the_shell()
    ensures
        input_for(Command::Start) == Input::Flags(true, false),
        input_for(Command::Finish) == Input::Flags(false, false),
        input_for(Command::Cancel) == Input::Cancel,
{
}

/// A message of up to 42 characters stands in the label as it is; a longer one is left to the
/// menu.
pub proof fn short_messages_stand_in_the_label(message: Seq<char>)
    ensures
        message.len() <= 42 ==> label(message) == message,
        message.len() > 42 ==> label(message) == "⚠ Check Control menu for details"@,
{
}

/// A field is open where it takes text and keeps no secret.
pub proof fn fields_are_open_unless_secret(target: Target)
    ensures
        field_of(Some(target)) == Field::Open <==> target.editable && !target.secure,
        field_of(Some(target)) == Field::Secure <==> target.secure,
        field_of(None) == Field::Unusable,
{
}

/// All data is kept where none is missing, however much there is.
pub proof fn all_data_is_kept<D>(data: Seq<Option<D>>, more: Option<D>)
    ensures
        all_kept(Seq::<Option<D>>::empty()),
        all_kept(data.push(more)) <==> all_kept(data) && more is Some,
{
    assert forall|i: int| all_kept(data.push(more)) && 0 <= i < data.len() implies (
    #[trigger] data[i]) is Some by {
        assert(data.push(more)[i] == data[i]);
    }
    if all_kept(data.push(more)) {
        assert(data.push(more)[data.len() as int] == more);
    }
}

/// A passing message stays for five seconds and then gives way to the usual one; one that does
/// not pass stays until another is shown.
pub proof fn messages_stay_for_five_seconds(
    desk: Desk,
    message: Seq<char>,
    shown: u64,
    listening: bool,
    now: u64,
)
    requires
        shown + 5_000 <= u64::MAX,
    ensures
        ({
            let passes = showing(desk, message, true, shown);
            let stays = showing(desk, message, false, shown);
            &&& passes.message == message && stays.message == message
            &&& now < shown + 5_000 ==> passing(passes, listening, now) == (
                passes,
                Seq::<EffectModel>::empty(),
            )
            &&& now >= shown + 5_000 ==> {
                let usual = if listening {
                    "● Ready · hold Control"@
                } else {
                    "⚠ Keyboard permission needed"@
                };
                &&& passing(passes, listening, now).0 == (Desk {
                    message: usual,
                    hide_at: None,
                    ..passes
                })
                &&& passing(passes, listening, now).1 == seq![EffectModel::Show(usual)]
            }
            &&& passing(stays, listening, now) == (stays, Seq::<EffectModel>::empty())
        }),
{
    let passes = showing(desk, message, true, shown);
    let stays = showing(desk, message, false, shown);
    assert(passing(stays, listening, now).1 =~= Seq::<EffectModel>::empty());
    if now < shown + 5_000 {
        assert(passing(passes, listening, now).1 =~= Seq::<EffectModel>::empty());
    }
}

/// Cancelling always tells the attempt. It ends whatever goes on, forgets the field and says
/// so; at rest it changes nothing.
pub proof fn cancelling_ends_what_goes_on(desk: Desk, now: u64)
    ensures
        desk.dictation.phase == Phase::Idle ==> cancelling(desk, now) == (
            desk,
            seq![EffectModel::Control(2)],
        ),
        desk.dictation.phase != Phase::Idle ==> {
            let turn = cancelling(desk, now);
            &&& turn.1 == seq![
                EffectModel::Control(2),
                EffectModel::DropFocus,
                EffectModel::Show("Cancelled"@),
            ]
            &&& turn.0.dictation.phase == Phase::Idle
            &&& turn.0.dictation.generation == desk.dictation.generation + 1
            &&& !turn.0.focused
            &&& turn.0.last == desk.last
            &&& turn.0.message == "Cancelled"@
        },
{
}

/// With permission a dictation starts in any field that is not secret: the field is kept where
/// it is open, the attempt of the current number runs from now on, and the last transcript is
/// forgotten.
pub proof fn permitted_starts_run(desk: Desk, field: Field, now: u64)
    requires
        field != Field::Secure,
    ensures
        ({
            let turn = starting(desk, field, true, now);
            &&& turn.1 == seq![
                EffectModel::Attempt(field == Field::Open),
                EffectModel::Show("◌ Starting microphone…"@),
                EffectModel::Spawn(desk.dictation.generation),
            ]
            &&& turn.0.dictation == desk.dictation
            &&& turn.0.focused == (field == Field::Open)
            &&& turn.0.started == now
            &&& turn.0.last.len() == 0
            &&& turn.0.hide_at is None
        }),
{
}

/// A start that is refused cancels the dictation and says why; without permission it is asked
/// for.
pub proof fn refused_starts_say_why(desk: Desk, permitted: bool, field: Field, now: u64)
    ensures
        starting(desk, Field::Secure, permitted, now).1 == cancelling(desk, now).1.push(
            EffectModel::Show("Choose a supported text field. Password fields are blocked."@),
        ),
        starting(desk, Field::Secure, permitted, now).0.dictation == cancelling(
            desk,
            now,
        ).0.dictation,
        field != Field::Secure ==> starting(desk, field, false, now).1 == (seq![
            EffectModel::RequestMicrophone,
        ] + cancelling(desk, now).1).push(
            EffectModel::Show("Use Set up permissions in the Control menu, then try again."@),
        ),
        field != Field::Secure ==> starting(desk, field, false, now).0.dictation == cancelling(
            desk,
            now,
        ).0.dictation,
{
}

/// What the key asks for is done: a start begins, a finish tells the attempt to finish, a
/// cancellation tells it to stop and forgets the field; nothing else is asked of the system.
pub proof fn the_key_is_obeyed(desk: Desk, down: bool, other: bool, now: u64)
    ensures
        ({
            let request = flags_request(desk.dictation, down, other);
            let turn = hearing(desk, Input::Flags(down, other), now);
            &&& turn.0.dictation == after(
                desk.dictation,
                Op::Flags { key_down: down, other_modifier: other },
            )
            &&& turn.0.last == desk.last
            &&& request == Some("start"@) ==> turn.1 == seq![EffectModel::Begin] && turn.0.focused
                == desk.focused
            &&& request == Some("finish"@) ==> turn.1 == seq![
                EffectModel::Control(1),
                EffectModel::Show("Finishing… · Esc to cancel"@),
            ] && turn.0.focused == desk.focused
            &&& request == Some("cancel"@) ==> turn.1 == seq![
                EffectModel::Control(2),
                EffectModel::DropFocus,
                EffectModel::Show("Cancelled Control shortcut"@),
            ] && !turn.0.focused
            &&& request is None ==> turn.1.len() == 0 && turn.0.focused == desk.focused
        }),
        hearing(desk, Input::HotkeyDown, now).0.dictation == desk.dictation,
        hearing(desk, Input::HotkeyDown, now).1 == seq![
            EffectModel::Show("◌ Control held — keep holding"@),
        ],
        hearing(desk, Input::Cancel, now) == cancelling(desk, now),
        hearing(desk, Input::TapDisabled, now).0 == cancelling(desk, now).0,
        hearing(desk, Input::TapDisabled, now).1 == cancelling(desk, now).1.push(
            EffectModel::EnableTap,
        ),
{
    reveal_strlit("start");
    reveal_strlit("finish");
    reveal_strlit("cancel");
    assert("start"@[0] == 's' && "finish"@[0] == 'f' && "cancel"@[0] == 'c');
    let turn = hearing(desk, Input::Flags(down, other), now);
    let request = flags_request(desk.dictation, down, other);
    if request == Some("finish"@) {
        assert(turn.1 =~= seq![
            EffectModel::Control(1),
            EffectModel::Show("Finishing… · Esc to cancel"@),
        ]);
    }
    if request == Some("cancel"@) {
        assert(turn.1 =~= seq![
            EffectModel::Control(2),
            EffectModel::DropFocus,
            EffectModel::Show("Cancelled Control shortcut"@),
        ]);
    }
    assert(hearing(desk, Input::HotkeyDown, now).1 =~= seq![
        EffectModel::Show("◌ Control held — keep holding"@),
    ]);
}

/// The menu starts a dictation at rest, ends a recording at any time, and leaves everything
/// else as it is.
pub proof fn dictation_can_be_driven_without_the_key(desk: Desk, now: u64)
    ensures
        desk.dictation.phase == Phase::Idle ==> manual(desk).1 == seq![EffectModel::Begin]
            && manual(desk).0.dictation.phase == Phase::Recording
            && manual(desk).0.dictation.generation == desk.dictation.generation + 1,
        desk.dictation.phase != Phase::Idle ==> manual(desk) == (desk, Seq::<EffectModel>::empty()),
        desk.dictation.phase == Phase::Recording ==> {
            let turn = stopping(desk, now);
            &&& turn.1 == seq![
                EffectModel::Control(1),
                EffectModel::Show("Finishing… · Esc to cancel"@),
            ]
            &&& turn.0.dictation.phase == Phase::Processing
            &&& turn.0.dictation.generation == desk.dictation.generation
            &&& turn.0.focused == desk.focused
        },
        desk.dictation.phase != Phase::Recording ==> stopping(desk, now) == (
            desk,
            Seq::<EffectModel>::empty(),
        ),
{
    assert(manual(desk).1 =~= if desk.dictation.phase == Phase::Idle {
        seq![EffectModel::Begin]
    } else {
        Seq::<EffectModel>::empty()
    });
    if desk.dictation.phase == Phase::Recording {
        assert(stopping(desk, now).1 =~= seq![
            EffectModel::Control(1),
            EffectModel::Show("Finishing… · Esc to cancel"@),
        ]);
    } else {
        assert(stopping(desk, now).1 =~= Seq::<EffectModel>::empty());
    }
}

/// Each item of the menu does what it is called: the copy holds the whole last transcript,
/// where there is one; a word that is no item does nothing.
pub proof fn menu_items_do_what_they_say(desk: Desk, item: Seq<char>, now: u64)
    ensures
        choosing(desk, "start"@, now) == manual(desk),
        choosing(desk, "stop"@, now) == stopping(desk, now),
        choosing(desk, "cancel"@, now) == cancelling(desk, now),
        desk.last.len() > 0 ==> choosing(desk, "copy"@, now).1 == seq![
            EffectModel::Copy(desk.last),
            EffectModel::Show("Transcript copied"@),
        ] && choosing(desk, "copy"@, now).0.last == desk.last && choosing(
            desk,
            "copy"@,
            now,
        ).0.dictation == desk.dictation,
        desk.last.len() == 0 ==> choosing(desk, "copy"@, now) == (
            desk,
            Seq::<EffectModel>::empty(),
        ),
        choosing(desk, "setup"@, now).1 == cancelling(desk, now).1.push(
            EffectModel::RequestMicrophone,
        ).push(EffectModel::OpenSettings).push(
            EffectModel::Show("Enable Accessibility. Keep Wispr Flow on Fn; hold Control here."@),
        ),
        choosing(desk, "setup"@, now).0.dictation == cancelling(desk, now).0.dictation,
        choosing(desk, "quit"@, now) == (desk, seq![EffectModel::Control(2), EffectModel::Quit]),
        item != "start"@ && item != "stop"@ && item != "cancel"@ && item != "copy"@ && item
            != "setup"@ && item != "quit"@ ==> choosing(desk, item, now) == (
            desk,
            Seq::<EffectModel>::empty(),
        ),
{
    reveal_strlit("start");
    reveal_strlit("stop");
    reveal_strlit("cancel");
    reveal_strlit("copy");
    reveal_strlit("setup");
    reveal_strlit("quit");
    assert("start"@[1] == 't' && "stop"@[1] == 't' && "cancel"@[1] == 'a' && "copy"@[1] == 'o'
        && "setup"@[1] == 'e' && "quit"@[1] == 'u');
    assert("start"@.len() == 5 && "stop"@.len() == 4);
    if desk.last.len() > 0 {
        assert(choosing(desk, "copy"@, now).1 =~= seq![
            EffectModel::Copy(desk.last),
            EffectModel::Show("Transcript copied"@),
        ]);
    }
}

/// A dictation is ended after two minutes and not before.
pub proof fn dictations_last_two_minutes(desk: Desk, now: u64)
    ensures
        now >= desk.started + 120_000 ==> limiting(desk, now) == stopping(desk, now),
        now < desk.started + 120_000 ==> limiting(desk, now) == (desk, Seq::<EffectModel>::empty()),
{
}

/// A trial run dictates once, from two seconds after its launch on, and ends that after ten;
/// no other run does.
pub proof fn trial_runs_dictate_once(desk: Desk, now: u64)
    ensures
        desk.smoke && !desk.smoke_started && now > desk.launched + 2_000 ==> trying(desk, now)
            == manual(Desk { smoke_started: true, ..desk }),
        !desk.smoke || desk.smoke_started || now <= desk.launched + 2_000 ==> trying(desk, now) == (
            desk,
            Seq::<EffectModel>::empty(),
        ),
        desk.smoke && now > desk.started + 10_000 ==> trying_end(desk, now) == stopping(desk, now),
        !desk.smoke || now <= desk.started + 10_000 ==> trying_end(desk, now) == (
            desk,
            Seq::<EffectModel>::empty(),
        ),
{
}

/// A transcript that was spoken is inserted whole into the field that was kept; without one it
/// waits to be copied, and says so. An error is shown with its own words, a silent attempt as
/// that. Whatever came, the attempt is over and its field forgotten.
pub proof fn results_reach_the_user(
    desk: Desk,
    id: int,
    text: Seq<char>,
    message: Seq<char>,
    spoken: bool,
    now: u64,
)
    requires
        desk.dictation.phase == Phase::Processing,
        desk.dictation.generation == id,
    ensures
        ({
            let done = completing(desk, id, Ok(text), true, now);
            &&& desk.focused ==> done.1 == seq![EffectModel::Insert(text), EffectModel::DropFocus]
            &&& !desk.focused ==> done.1 == seq![
                EffectModel::Show("Transcript ready — choose Copy Last Transcript"@),
                EffectModel::DropFocus,
            ]
            &&& done.0.last == text
            &&& done.0.dictation.phase == Phase::Idle
            &&& !done.0.focused
        }),
        ({
            let silent = completing(desk, id, Ok(text), false, now);
            &&& silent.1 == seq![EffectModel::Show("No speech detected"@), EffectModel::DropFocus]
            &&& silent.0.last == desk.last
            &&& silent.0.dictation.phase == Phase::Idle
            &&& !silent.0.focused
        }),
        ({
            let failed = completing(desk, id, Err(message), spoken, now);
            &&& failed.1 == seq![EffectModel::Show(message), EffectModel::DropFocus]
            &&& failed.0.last == desk.last
            &&& failed.0.message == message
            &&& failed.0.dictation.phase == Phase::Idle
            &&& !failed.0.focused
        }),
{
    let done = completing(desk, id, Ok(text), true, now);
    if desk.focused {
        assert(done.1 =~= seq![EffectModel::Insert(text), EffectModel::DropFocus]);
    } else {
        assert(done.1 =~= seq![
            EffectModel::Show("Transcript ready — choose Copy Last Transcript"@),
            EffectModel::DropFocus,
        ]);
    }
    assert(completing(desk, id, Ok(text), false, now).1 =~= seq![
        EffectModel::Show("No speech detected"@),
        EffectModel::DropFocus,
    ]);
    assert(completing(desk, id, Err(message), spoken, now).1 =~= seq![
        EffectModel::Show(message),
        EffectModel::DropFocus,
    ]);
}

/// A result of an attempt that is over, or of another one, does nothing.
pub proof fn stray_results_do_nothing(
    desk: Desk,
    id: int,
    result: Result<Seq<char>, Seq<char>>,
    spoken: bool,
    now: u64,
)
    requires
        desk.dictation.phase == Phase::Idle || desk.dictation.generation != id,
    ensures
        completing(desk, id, result, spoken, now) == (desk, Seq::<EffectModel>::empty()),
{
}

/// A result that comes while its attempt records inserts nothing and keeps no transcript.
pub proof fn early_results_keep_nothing(desk: Desk, text: Seq<char>, spoken: bool, now: u64)
    requires
        desk.dictation.phase == Phase::Recording,
    ensures
        ({
            let turn = completing(desk, desk.dictation.generation, Ok(text), spoken, now);
            &&& turn.1 == seq![EffectModel::Show("No speech detected"@), EffectModel::DropFocus]
            &&& turn.0.last == desk.last
            &&& turn.0.dictation.phase == Phase::Idle
        }),
{
    let turn = completing(desk, desk.dictation.generation, Ok(text), spoken, now);
    assert(turn.1 =~= seq![EffectModel::Show("No speech detected"@), EffectModel::DropFocus]);
}

/// Asking for the keyboard again is remembered; a failure is told only where the message still
/// promises the key.
pub proof fn failed_retries_are_told(desk: Desk, created: bool, now: u64, rest: Seq<char>)
    ensures
        retrying(desk, created, now).0.retry_at == now,
        retrying(desk, true, now).1.len() == 0,
        desk.message == "Hold Control"@ + rest ==> retrying(desk, false, now).1 == seq![
            EffectModel::Show(
                "Keyboard access unavailable — use Start dictation in the Control menu"@,
            ),
        ],
        desk.message.len() < 12 ==> retrying(desk, false, now).1.len() == 0,
        retrying(desk, created, now).0.dictation == desk.dictation,
{
    reveal_strlit("Hold Control");
    if desk.message == "Hold Control"@ + rest {
        assert(desk.message.subrange(0, 12) =~= "Hold Control"@);
        assert(retrying(desk, false, now).1 =~= seq![
            EffectModel::Show(
                "Keyboard access unavailable — use Start dictation in the Control menu"@,
            ),
        ]);
    }
}

/// The level meter shows its four pictures in turn, each for 160 ms.
pub proof fn the_meter_has_four_pictures(round: int, within: int)
    requires
        0 <= round,
        0 <= within < 160,
    ensures
        picture(640 * round + within) == "▁ ▃ ▆ ▃ ▁"@,
        picture(640 * round + 160 + within) == "▃ ▆ █ ▆ ▃"@,
        picture(640 * round + 320 + within) == "▆ ▃ ▁ ▃ ▆"@,
        picture(640 * round + 480 + within) == "▃ ▁ ▃ ▆ █"@,
{
    let a = 640 * round + within;
    assert(a / 160 == 4 * round);
    assert((a + 160) / 160 == 4 * round + 1);
    assert((a + 320) / 160 == 4 * round + 2);
    assert((a + 480) / 160 == 4 * round + 3);
    assert((4 * round) % 4 == 0 && (4 * round + 1) % 4 == 1 && (4 * round + 2) % 4 == 2 && (4
        * round + 3) % 4 == 3);
}

/// A focused field is what Accessibility says of it: whose it is, secret where its role or
/// subrole says so, and editable where it is a text input that is not.
pub proof fn fields_are_what_accessibility_says(
    pid: i32,
    element: u64,
    role: Seq<char>,
    subrole: Seq<char>,
)
    ensures
        target_of(pid, element, role, subrole).pid == pid,
        target_of(pid, element, role, subrole).element == element,
        target_of(pid, element, role, subrole).secure <==> secret_name(role) || secret_name(subrole),
        target_of(pid, element, role, subrole).editable <==> input_role(role) && !secret_name(
            subrole,
        ),
{
}

/// A text of any length that can be typed goes into the field that the dictation began in, as
/// long as it is the same by description and identity, editable and not secret.
pub proof fn transcripts_go_where_the_dictation_began(
    before: Target,
    now: Target,
    identical: bool,
    text: Seq<char>,
)
    ensures
        insertable(before, now, identical, text) <==> {
            &&& identical
            &&& typeable(text)
            &&& before.pid >= 1 && now.pid == before.pid && now.element == before.element
            &&& before.editable && now.editable && !before.secure && !now.secure
        },
{
}

/// A paste is possible over a clipboard of at most one item whose data is all kept, with its
/// shortcut at hand; else the first of these that fails is named.
pub proof fn pastes_need_a_kept_clipboard<D>(items: usize, kept: Seq<Option<D>>, shortcut: bool)
    ensures
        paste_verdict(items, kept, shortcut) is Ok <==> items <= 1 && shortcut && forall|i: int|
            0 <= i < kept.len() ==> (#[trigger] kept[i]) is Some,
        items >= 2 <==> paste_verdict(items, kept, shortcut) == Err::<(), PasteFailure>(
            PasteFailure::MultipleItems,
        ),
        items <= 1 && !all_kept(kept) <==> paste_verdict(items, kept, shortcut) == Err::<
            (),
            PasteFailure,
        >(PasteFailure::CannotPreserve),
{
}

/// An insertion that failed is told with its own words.
pub proof fn failed_insertions_are_told(message: Seq<char>)
    ensures
        insertion_words(None) == "Text inserted"@,
        insertion_words(Some(message)) == message,
{
}

/// A keyboard that cannot be heard is asked for again after three seconds, and again and again.
pub proof fn the_keyboard_is_asked_for_every_three_seconds(
    desk: Desk,
    created: bool,
    tried: u64,
    now: u64,
)
    ensures
        tap_wanted(desk, false, now) <==> now > desk.retry_at + 3_000,
        !tap_wanted(desk, true, now),
        tap_wanted(retrying(desk, created, tried).0, false, now) <==> now > tried + 3_000,
{
}

/// While audio arrives in a recording the meter is shown, at any time, and in no other case.
pub proof fn recordings_show_the_meter(desk: Desk, receiving: bool, now: u64)
    ensures
        metered(desk, receiving, now) is Some <==> receiving && desk.dictation.phase
            == Phase::Recording,
        metered(desk, receiving, now) is Some && now >= desk.started ==> metered(
            desk,
            receiving,
            now,
        )->0 == "● Listening  "@ + picture(now - desk.started),
{
}

/// All effects are seen, in order, with all that they carry.
pub proof fn effects_are_seen_whole(list: Seq<Effect>, more: Effect, text: String)
    ensures
        effects(Seq::<Effect>::empty()) == Seq::<EffectModel>::empty(),
        effects(list.push(more)) == effects(list).push(more@),
        (Effect::Show(text))@ == EffectModel::Show(text@),
        (Effect::Insert(text))@ == EffectModel::Insert(text@),
        (Effect::Copy(text))@ == EffectModel::Copy(text@),
{
    assert(effects(Seq::<Effect>::empty()) =~= Seq::<EffectModel>::empty());
    assert(effects(list.push(more)) =~= effects(list).push(more@));
}

} // verus!
