//! Where a transcript may be inserted. Native implementations must retain and compare the
//! actual accessibility element too.
use crate::text::{
    blank, contains, control, found, found_patterns_are_there, has_control, is_blank,
    patterns_are_found_anywhere, same, white,
};
use vstd::prelude::*;

verus! {

/// The name of a secret field, by the words that such names carry.
pub open spec fn secret_name(name: Seq<char>) -> bool {
    found(name, "Secure"@) || found(name, "Password"@)
}

/// The applications whose window is a terminal.
pub open spec fn terminal_bundle(bundle: Seq<char>) -> bool {
    bundle == "com.apple.Terminal"@ || bundle == "com.googlecode.iterm2"@ || bundle
        == "com.mitchellh.ghostty"@
}

/// The roles under which a terminal shows its text.
pub open spec fn terminal_role(role: Seq<char>) -> bool {
    role == "AXTextArea"@ || role == "AXTextField"@ || role == "AXGroup"@ || role
        == "AXScrollArea"@
}

/// The roles of a text input.
pub open spec fn input_role(role: Seq<char>) -> bool {
    role == "AXTextField"@ || role == "AXTextArea"@ || role == "AXComboBox"@
}

/// A terminal's text surface.
pub open spec fn is_terminal_surface(
    bundle: Seq<char>,
    role: Seq<char>,
    subrole: Seq<char>,
) -> bool {
    terminal_bundle(bundle) && terminal_role(role) && !secret_name(subrole)
}

/// A text input that is not secret.
pub open spec fn is_text_role(role: Seq<char>, subrole: Seq<char>) -> bool {
    input_role(role) && !secret_name(subrole)
}

/// The field keeps a secret.
pub open spec fn keeps_secret(role: Seq<char>, subrole: Seq<char>) -> bool {
    secret_name(role) || secret_name(subrole)
}

/// The surface takes the native paste shortcut.
pub open spec fn takes_paste(bundle: Seq<char>, role: Seq<char>, subrole: Seq<char>) -> bool {
    is_text_role(role, subrole) || is_terminal_surface(bundle, role, subrole)
}

/// A line of text that can be typed without submitting or controlling anything.
pub open spec fn typeable(text: Seq<char>) -> bool {
    !blank(text) && forall|i: int| 0 <= i < text.len() ==> !control(#[trigger] text[i])
}

fn secret(name: &str) -> (r: bool)
    ensures
        r == secret_name(name@),
{
    contains(name, "Secure") || contains(name, "Password")
}

/// The field keeps a secret: its role or its subrole says so.
pub fn secure_field(role: &str, subrole: &str) -> (r: bool)
    ensures
        r == (secret_name(role@) || secret_name(subrole@)),
        r == keeps_secret(role@, subrole@),
{
    secret(role) || secret(subrole)
}

/// The surface of a terminal, which takes a paste and no direct write.
pub fn terminal_surface(bundle: &str, role: &str, subrole: &str) -> (r: bool)
    ensures
        r == is_terminal_surface(bundle@, role@, subrole@),
{
    (same(bundle, "com.apple.Terminal") || same(bundle, "com.googlecode.iterm2") || same(
        bundle,
        "com.mitchellh.ghostty",
    )) && (same(role, "AXTextArea") || same(role, "AXTextField") || same(role, "AXGroup") || same(
        role,
        "AXScrollArea",
    )) && !secret(subrole)
}

/// A text input of any application.
pub fn text_role(role: &str, subrole: &str) -> (r: bool)
    ensures
        r == is_text_role(role@, subrole@),
{
    (same(role, "AXTextField") || same(role, "AXTextArea") || same(role, "AXComboBox")) && !secret(
        subrole,
    )
}

/// A surface that takes the native paste shortcut: a text input of any application, or a
/// terminal.
pub fn native_paste_surface(bundle: &str, role: &str, subrole: &str) -> (r: bool)
    ensures
        r == (is_text_role(role@, subrole@) || is_terminal_surface(bundle@, role@, subrole@)),
        r == takes_paste(bundle@, role@, subrole@),
{
    text_role(role, subrole) || terminal_surface(bundle, role, subrole)
}

/// A focused field.
#[derive(Clone, Debug)]
pub struct Target {
    pub pid: i32,
    pub element: u64,
    pub secure: bool,
    pub editable: bool,
}

/// Text may go from the field that had the focus to the field that has it now.
pub open spec fn insertion_allowed(a: Target, b: Target, text: Seq<char>) -> bool {
    &&& a.pid > 0
    &&& a.pid == b.pid
    &&& a.element == b.element
    &&& !a.secure && !b.secure
    &&& a.editable && b.editable
    &&& typeable(text)
}

/// `a` had the focus when the dictation began, `b` has it now: `text` may be inserted.
pub fn allowed(a: &Target, b: &Target, text: &str) -> (r: bool)
    ensures
        r == insertion_allowed(*a, *b, text@),
{
    a.pid > 0 && a.pid == b.pid && a.element == b.element && !a.secure && !b.secure && a.editable
        && b.editable && !is_blank(text) && !has_control(text)
}

/// The window that was seen before is the one that is seen now; `equal` compares two.
pub fn same_window<T>(before: Option<&T>, after: Option<&T>, equal: impl Fn(&T, &T) -> bool) -> (r:
    bool)
    requires
        before matches Some(a) ==> after matches Some(b) ==> call_requires(equal, (a, b)),
    ensures
        match (before, after) {
            (Some(a), Some(b)) => call_ensures(equal, (a, b), r),
            (None, None) => r,
            _ => !r,
        },
{
    match (before, after) {
        (Some(a), Some(b)) => equal(a, b),
        (None, None) => true,
        _ => false,
    }
}

/// Nothing is inserted into a field other than the one that the dictation began in, into
/// a secret one, or where a line break or another control character would be typed.
pub proof fn insertion_needs_the_same_open_field(a: Target, b: Target, text: Seq<char>)
    requires
        insertion_allowed(a, b, text),
    ensures
        a.pid == b.pid && a.element == b.element,
        !b.secure && b.editable,
        !text.contains('\n') && !text.contains('\r') && !text.contains('\t'),
{
    if text.contains('\n') || text.contains('\r') || text.contains('\t') {
        let i = choose|i: int|
            0 <= i < text.len() && (text[i] == '\n' || text[i] == '\r' || text[i] == '\t');
        assert(control(text[i]));
    }
}

/// A field whose subrole is secret takes no paste, whatever the application.
pub proof fn secret_fields_take_no_paste(bundle: Seq<char>, role: Seq<char>, subrole: Seq<char>)
    requires
        secret_name(subrole),
    ensures
        !is_text_role(role, subrole),
        !is_terminal_surface(bundle, role, subrole),
{
}

/// Every text input takes a paste, whatever the application is called.
pub proof fn text_inputs_need_no_allowlist(
    bundle: Seq<char>,
    other: Seq<char>,
    role: Seq<char>,
    subrole: Seq<char>,
)
    requires
        input_role(role),
    ensures
        (is_text_role(role, subrole) || is_terminal_surface(bundle, role, subrole)) == (
        is_text_role(role, subrole) || is_terminal_surface(other, role, subrole)),
{
}

/// A text of any length can be typed that holds no control character and something besides
/// white space.
pub proof fn plain_texts_can_be_typed(text: Seq<char>)
    ensures
        typeable(text) <==> {
            &&& exists|i: int| 0 <= i < text.len() && !white(#[trigger] text[i])
            &&& forall|i: int| 0 <= i < text.len() ==> !control(#[trigger] text[i])
        },
{
}

/// Into the same open field any text may go that can be typed, however long it is.
pub proof fn the_same_open_field_takes_the_text(a: Target, b: Target, text: Seq<char>)
    requires
        typeable(text),
    ensures
        insertion_allowed(a, b, text) <==> {
            &&& a.pid >= 1
            &&& b.pid == a.pid
            &&& b.element == a.element
            &&& a.editable && b.editable
            &&& !(a.secure || b.secure)
        },
{
}

/// A text that cannot be typed goes nowhere.
pub proof fn other_texts_go_nowhere(a: Target, b: Target, text: Seq<char>)
    requires
        !typeable(text),
    ensures
        !insertion_allowed(a, b, text),
{
}

/// A name is secret exactly where one of the two words stands in it, anywhere.
pub proof fn secret_names_hold_a_word(front: Seq<char>, back: Seq<char>, name: Seq<char>)
    ensures
        secret_name(front + "Secure"@ + back),
        secret_name(front + "Password"@ + back),
        secret_name(name) ==> exists|a: Seq<char>, b: Seq<char>|
            name == #[trigger] (a + "Secure"@ + b) || name == a + "Password"@ + b,
{
    patterns_are_found_anywhere(front, "Secure"@, back);
    patterns_are_found_anywhere(front, "Password"@, back);
    if secret_name(name) {
        if found(name, "Secure"@) {
            let sides = found_patterns_are_there(name, "Secure"@);
            assert(name == sides.0 + "Secure"@ + sides.1);
        } else {
            let sides = found_patterns_are_there(name, "Password"@);
            let other = sides.0 + "Secure"@ + sides.1;
            assert(name == sides.0 + "Password"@ + sides.1);
        }
    }
}

/// Every field whose role is that of a text input takes a text, unless its subrole is secret;
/// no other role is one of a text input.
pub proof fn text_inputs_are_three_roles(role: Seq<char>, subrole: Seq<char>)
    ensures
        is_text_role(role, subrole) <==> (role == "AXTextField"@ || role == "AXTextArea"@ || role
            == "AXComboBox"@) && !found(subrole, "Secure"@) && !found(subrole, "Password"@),
{
}

/// A terminal is one of three applications, and its text stands under one of four roles.
pub proof fn terminals_are_three_applications(
    bundle: Seq<char>,
    role: Seq<char>,
    subrole: Seq<char>,
)
    ensures
        is_terminal_surface(bundle, role, subrole) <==> {
            &&& bundle == "com.apple.Terminal"@ || bundle == "com.googlecode.iterm2"@ || bundle
                == "com.mitchellh.ghostty"@
            &&& role == "AXTextArea"@ || role == "AXTextField"@ || role == "AXGroup"@ || role
                == "AXScrollArea"@
            &&& !found(subrole, "Secure"@) && !found(subrole, "Password"@)
        },
{
}

/// A field keeps a secret where its role or its subrole says so, by either word, anywhere.
pub proof fn roles_and_subroles_tell_of_secrets(
    front: Seq<char>,
    back: Seq<char>,
    role: Seq<char>,
    subrole: Seq<char>,
)
    ensures
        keeps_secret(front + "Secure"@ + back, subrole),
        keeps_secret(front + "Password"@ + back, subrole),
        keeps_secret(role, front + "Secure"@ + back),
        keeps_secret(role, front + "Password"@ + back),
        !found(role, "Secure"@) && !found(role, "Password"@) && !found(subrole, "Secure"@)
            && !found(subrole, "Password"@) ==> !keeps_secret(role, subrole),
{
    secret_names_hold_a_word(front, back, role);
}

/// Text inputs of every application take a paste, terminals their own surfaces too, and secret
/// subroles none.
pub proof fn pastes_go_to_inputs_and_terminals(
    bundle: Seq<char>,
    role: Seq<char>,
    subrole: Seq<char>,
)
    ensures
        secret_name(subrole) ==> !takes_paste(bundle, role, subrole),
        !secret_name(subrole) && input_role(role) ==> takes_paste(bundle, role, subrole),
        !secret_name(subrole) && terminal_bundle(bundle) && terminal_role(role) ==> takes_paste(
            bundle,
            role,
            subrole,
        ),
        !input_role(role) && !(terminal_bundle(bundle) && terminal_role(role)) ==> !takes_paste(
            bundle,
            role,
            subrole,
        ),
{
}

} // verus!
