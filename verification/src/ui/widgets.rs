//! The handful of controls this window needs: how a button is coloured, and one
//! editable line.
use vstd::prelude::*;
use vstd::string::StringExecFns;

use crate::text::{chars_of, is_control_char, is_digit_char, same};

verus! {

use crate::text::{is_control, is_digit};
use crate::ui::theme::{ACCENT, BORDER, BORDER_STRONG, DANGER, MUTED, PANEL_ALT, TEXT};

#[derive(Debug, Clone, Copy, PartialEq, Eq, Structural)]
pub enum ButtonKind {
    /// The one thing this panel is for: GO LIVE, START.
    Primary,
    Secondary,
    Danger,
    /// A two-state control - mute, a mode tab - drawn lit or unlit.
    Toggle(bool),
}

/// A button's background, text and border.
#[derive(Debug, Clone, Copy, PartialEq, Eq, Structural)]
pub struct ButtonColors {
    pub background: u32,
    pub text: u32,
    pub border: u32,
}

pub fn button_colors(kind: ButtonKind) -> (r: ButtonColors)
    ensures
        r == match kind {
            ButtonKind::Primary => ButtonColors {
                background: ACCENT,
                text: 0xffffff,
                border: ACCENT,
            },
            ButtonKind::Secondary => ButtonColors {
                background: PANEL_ALT,
                text: TEXT,
                border: BORDER_STRONG,
            },
            ButtonKind::Danger => ButtonColors {
                background: DANGER,
                text: 0x1a0d0d,
                border: DANGER,
            },
            ButtonKind::Toggle(true) => ButtonColors {
                background: ACCENT,
                text: 0xffffff,
                border: ACCENT,
            },
            ButtonKind::Toggle(false) => ButtonColors {
                background: PANEL_ALT,
                text: MUTED,
                border: BORDER,
            },
        },
{
    match kind {
        ButtonKind::Primary => ButtonColors { background: ACCENT, text: 0xffffff, border: ACCENT },
        ButtonKind::Secondary => ButtonColors {
            background: PANEL_ALT,
            text: TEXT,
            border: BORDER_STRONG,
        },
        ButtonKind::Danger => ButtonColors { background: DANGER, text: 0x1a0d0d, border: DANGER },
        ButtonKind::Toggle(lit) => if lit {
            ButtonColors { background: ACCENT, text: 0xffffff, border: ACCENT }
        } else {
            ButtonColors { background: PANEL_ALT, text: MUTED, border: BORDER }
        },
    }
}

/// Which end of a drag this is. The move handler is global once a drag starts -
/// that is what lets the pointer leave the track without dropping the drag -
/// so the view has to know which slider owns it.
#[derive(Debug, Clone, Copy, PartialEq, Eq, Structural)]
pub enum DragPhase {
    Down,
    Move,
    Up,
}

/// A key that was pressed.
#[derive(Debug)]
pub struct Keystroke {
    pub control: bool,
    pub platform: bool,
    /// The name of the key.
    pub key: String,
    /// What it types, if anything.
    pub key_char: Option<String>,
}

/// One editable line: printable characters, backspace, and a caret. No selection, no
/// clipboard, no input method.
#[derive(Debug)]
pub struct TextField {
    pub value: String,
    pub placeholder: String,
    /// Digits only, for the port fields.
    pub numeric: bool,
    pub max_len: usize,
}

/// What a keystroke did, so the caller can act on Enter without re-reading the
/// keystroke itself.
#[derive(Debug, Clone, Copy, PartialEq, Eq, Structural)]
pub enum FieldKey {
    Edited,
    Submitted,
    Ignored,
}

/// Whether a character may go into a field that holds `len` already.
pub open spec fn takes(c: char, len: nat, numeric: bool, max_len: nat) -> bool {
    &&& !is_control(c)
    &&& len < max_len
    &&& numeric ==> is_digit(c)
}

/// A field's value once something has been typed into it: what may go in does, in
/// order, and the rest is dropped.
pub open spec fn typed_into(value: Seq<char>, typed: Seq<char>, numeric: bool, max_len: nat) -> Seq<
    char,
>
    decreases typed.len(),
{
    if typed.len() == 0 {
        value
    } else {
        let so_far = typed_into(value, typed.drop_last(), numeric, max_len);
        if takes(typed.last(), so_far.len(), numeric, max_len) {
            so_far.push(typed.last())
        } else {
            so_far
        }
    }
}

/// What a keystroke does to a field's value.
pub open spec fn pressed(
    value: Seq<char>,
    control: bool,
    platform: bool,
    key: Seq<char>,
    key_char: Option<Seq<char>>,
    numeric: bool,
    max_len: nat,
) -> (FieldKey, Seq<char>) {
    if control || platform {
        // A chord is a command, not text - except the one command this field has,
        // which is "throw it all away".
        if key == "u"@ || key == "a"@ {
            (FieldKey::Edited, Seq::empty())
        } else {
            (FieldKey::Ignored, value)
        }
    } else if key == "backspace"@ || key == "delete"@ {
        if value.len() > 0 {
            (FieldKey::Edited, value.drop_last())
        } else {
            (FieldKey::Ignored, value)
        }
    } else if key == "enter"@ {
        (FieldKey::Submitted, value)
    } else if key == "escape"@ || key == "tab"@ {
        (FieldKey::Ignored, value)
    } else {
        match key_char {
            None => (FieldKey::Ignored, value),
            Some(typed) => {
                let after = typed_into(value, typed, numeric, max_len);
                (
                    if after.len() > value.len() {
                        FieldKey::Edited
                    } else {
                        FieldKey::Ignored
                    },
                    after,
                )
            },
        }
    }
}

impl TextField {
    /// An empty line of text.
    pub fn text(placeholder: &str, max_len: usize) -> (r: TextField)
        ensures
            r.value@ == Seq::<char>::empty(),
            r.placeholder@ == placeholder@,
            !r.numeric,
            r.max_len == max_len,
    {
        let value = String::new();
        assert(value@ =~= Seq::<char>::empty());
        TextField { value, placeholder: String::from_str(placeholder), numeric: false, max_len }
    }

    /// An empty line of digits.
    pub fn number(placeholder: &str, max_len: usize) -> (r: TextField)
        ensures
            r.value@ == Seq::<char>::empty(),
            r.placeholder@ == placeholder@,
            r.numeric,
            r.max_len == max_len,
    {
        let value = String::new();
        assert(value@ =~= Seq::<char>::empty());
        TextField { value, placeholder: String::from_str(placeholder), numeric: true, max_len }
    }

    /// The field with this in it.
    pub fn with(self, value: String) -> (r: TextField)
        ensures
            r == (TextField { value, ..self }),
    {
        TextField {
            value,
            placeholder: self.placeholder,
            numeric: self.numeric,
            max_len: self.max_len,
        }
    }

    /// What the field shows: its value, or what it is for.
    pub fn shown(&self) -> (r: &str)
        ensures
            r@ == if self.value@.len() == 0 {
                self.placeholder@
            } else {
                self.value@
            },
    {
        if self.value.as_str().is_empty() {
            self.placeholder.as_str()
        } else {
            self.value.as_str()
        }
    }

    pub fn key(&mut self, keystroke: &Keystroke) -> (r: FieldKey)
        ensures
            (r, final(self).value@) == pressed(
                old(self).value@,
                keystroke.control,
                keystroke.platform,
                keystroke.key@,
                match keystroke.key_char {
                    Some(s) => Some(s@),
                    None => None,
                },
                old(self).numeric,
                old(self).max_len as nat,
            ),
            *final(self) == (TextField { value: final(self).value, ..*old(self) }),
    {
        let key = keystroke.key.as_str();
        if keystroke.control || keystroke.platform {
            if same(key, "u") || same(key, "a") {
                self.value = String::new();
                assert(self.value@ =~= Seq::<char>::empty());
                return FieldKey::Edited;
            }
            return FieldKey::Ignored;
        }
        if same(key, "backspace") || same(key, "delete") {
            return if self.value.pop().is_some() {
                FieldKey::Edited
            } else {
                FieldKey::Ignored
            };
        }
        if same(key, "enter") {
            return FieldKey::Submitted;
        }
        if same(key, "escape") || same(key, "tab") {
            return FieldKey::Ignored;
        }
        match &keystroke.key_char {
            None => FieldKey::Ignored,
            Some(typed) => if self.type_in(typed.as_str()) {
                FieldKey::Edited
            } else {
                FieldKey::Ignored
            },
        }
    }

    /// Types something in, and says whether any of it went in.
    fn type_in(&mut self, typed: &str) -> (edited: bool)
        ensures
            final(self).value@ == typed_into(
                old(self).value@,
                typed@,
                old(self).numeric,
                old(self).max_len as nat,
            ),
            edited == (final(self).value@.len() > old(self).value@.len()),
            *final(self) == (TextField { value: final(self).value, ..*old(self) }),
    {
        let cs = chars_of(typed);
        let mut len: usize = chars_of(self.value.as_str()).len();
        let mut edited = false;
        let mut i: usize = 0;
        assert(cs@.take(0) =~= Seq::empty());
        while i < cs.len()
            invariant
                i <= cs@.len(),
                len == self.value@.len(),
                len <= self.max_len || !edited,
                self.value@ == typed_into(
                    old(self).value@,
                    cs@.take(i as int),
                    old(self).numeric,
                    old(self).max_len as nat,
                ),
                self.value@.len() >= old(self).value@.len(),
                edited == (self.value@.len() > old(self).value@.len()),
                *self == (TextField { value: self.value, ..*old(self) }),
            decreases cs@.len() - i,
        {
            let ghost upto = cs@.take(i + 1);
            assert(upto.drop_last() =~= cs@.take(i as int));
            assert(upto.last() == cs@[i as int]);
            let c: char = cs[i];
            if !is_control_char(c) && len < self.max_len && (!self.numeric || is_digit_char(c)) {
                self.value.push(c);
                len = len + 1;
                edited = true;
            }
            i = i + 1;
        }
        assert(cs@.take(i as int) =~= typed@);
        edited
    }
}

/// Typing only ever adds to the end of a field; where it adds nothing, the field is as
/// it was.
pub proof fn law_typing_only_adds(
    value: Seq<char>,
    typed: Seq<char>,
    numeric: bool,
    max_len: nat,
)
    ensures
        value.len() <= typed_into(value, typed, numeric, max_len).len(),
        typed_into(value, typed, numeric, max_len).take(value.len() as int) == value,
        typed_into(value, typed, numeric, max_len).len() == value.len() ==> typed_into(
            value,
            typed,
            numeric,
            max_len,
        ) == value,
    decreases typed.len(),
{
    if typed.len() > 0 {
        law_typing_only_adds(value, typed.drop_last(), numeric, max_len);
    }
    assert(typed_into(value, typed, numeric, max_len).take(value.len() as int) =~= value);
}

/// A field never grows past its limit by typing, no control character enters it that
/// way, and a field for digits that held nothing else holds nothing else.
pub proof fn law_a_field_keeps_its_limits(
    value: Seq<char>,
    typed: Seq<char>,
    numeric: bool,
    max_len: nat,
)
    requires
        value.len() <= max_len,
        numeric ==> forall|i: int| 0 <= i < value.len() ==> is_digit(#[trigger] value[i]),
    ensures
        typed_into(value, typed, numeric, max_len).len() <= max_len,
        numeric ==> forall|i: int|
            0 <= i < typed_into(value, typed, numeric, max_len).len() ==> is_digit(
                #[trigger] typed_into(value, typed, numeric, max_len)[i],
            ),
        forall|i: int|
            value.len() <= i < typed_into(value, typed, numeric, max_len).len() ==> !is_control(
                #[trigger] typed_into(value, typed, numeric, max_len)[i],
            ),
    decreases typed.len(),
{
    if typed.len() > 0 {
        law_a_field_keeps_its_limits(value, typed.drop_last(), numeric, max_len);
    }
}

/// Text that may go in goes in as it is: no control characters, digits only where only
/// digits go in, and no more than there is room for.
pub proof fn law_what_may_go_in_goes_in(
    value: Seq<char>,
    typed: Seq<char>,
    numeric: bool,
    max_len: nat,
)
    requires
        value.len() + typed.len() <= max_len,
        forall|i: int|
            0 <= i < typed.len() ==> !is_control(#[trigger] typed[i]) && (numeric ==> is_digit(
                typed[i],
            )),
    ensures
        typed_into(value, typed, numeric, max_len) == value + typed,
    decreases typed.len(),
{
    if typed.len() > 0 {
        let init = typed.drop_last();
        assert forall|i: int| 0 <= i < init.len() implies !is_control(#[trigger] init[i]) && (
        numeric ==> is_digit(init[i])) by {
            assert(init[i] == typed[i]);
        }
        law_what_may_go_in_goes_in(value, init, numeric, max_len);
        assert(value + typed =~= (value + init).push(typed.last()));
    } else {
        assert(value + typed =~= value);
    }
}

/// What each key does: rubbing out takes the last character, enter hands the field in,
/// escape and tab do nothing, control with u or a empties it, any other chord does
/// nothing, and everything else is typed.
pub proof fn law_what_a_key_does(
    value: Seq<char>,
    control: bool,
    platform: bool,
    key: Seq<char>,
    key_char: Option<Seq<char>>,
    numeric: bool,
    max_len: nat,
)
    ensures
        ({
            let (what, after) = pressed(value, control, platform, key, key_char, numeric, max_len);
            let chord = control || platform;
            let wipes = key == "u"@ || key == "a"@;
            let rubs = key == "backspace"@ || key == "delete"@;
            let plain = !rubs && key != "enter"@ && key != "escape"@ && key != "tab"@;
            &&& chord && wipes ==> what is Edited && after.len() == 0
            &&& chord && !wipes ==> what is Ignored && after == value
            &&& !chord && rubs && value.len() > 0 ==> what is Edited && after == value.take(
                value.len() - 1,
            )
            &&& !chord && rubs && value.len() == 0 ==> what is Ignored && after == value
            &&& !chord && key == "enter"@ ==> what is Submitted && after == value
            &&& !chord && (key == "escape"@ || key == "tab"@) ==> what is Ignored && after == value
            &&& !chord && plain && key_char is None ==> what is Ignored && after == value
            &&& !chord && plain && key_char is Some ==> after == typed_into(
                value,
                key_char->0,
                numeric,
                max_len,
            )
            &&& !chord && plain && key_char is Some ==> (what is Edited <==> after != value)
            &&& !chord && plain && key_char is Some ==> what is Edited || what is Ignored
        }),
{
    reveal_strlit("enter");
    reveal_strlit("backspace");
    reveal_strlit("delete");
    reveal_strlit("escape");
    reveal_strlit("tab");
    assert("enter"@.len() == 5 && "backspace"@.len() == 9 && "delete"@.len() == 6
        && "escape"@.len() == 6 && "tab"@.len() == 3);
    assert("delete"@[0] != "escape"@[0]);
    assert(value.len() > 0 ==> value.drop_last() =~= value.take(value.len() - 1));
    if key_char is Some {
        law_typing_only_adds(value, key_char->0, numeric, max_len);
    }
}

} // verus!
