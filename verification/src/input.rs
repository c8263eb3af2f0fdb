//! Keys, modifier sets, key occurrences and key bindings.

use crate::modes::ScreenReaderMode;
use vstd::prelude::*;

verus! {

/// A key symbol.
#[derive(Clone, Copy, Debug, PartialEq, Eq, Hash, Structural)]
pub enum Key {
    Up,
    Down,
    Left,
    Right,
    Home,
    End,
    PageDown,
    PageUp,
    Backspace,
    Delete,
    Escape,
    F1,
    F2,
    F3,
    F4,
    F5,
    F6,
    F7,
    F8,
    F9,
    F10,
    F11,
    F12,
    Return,
    Space,
    Tab,
    PrintScreen,
    ScrollLock,
    Pause,
    NumLock,
    KpReturn,
    KpMinus,
    KpPlus,
    KpMultiply,
    KpDivide,
    Kp0,
    Kp1,
    Kp2,
    Kp3,
    Kp4,
    Kp5,
    Kp6,
    Kp7,
    Kp8,
    Kp9,
    KpDelete,
    Function,
    Insert,
    /// A key that produces the given character.
    Other(char),
}

/// One modifier flag.
#[derive(Clone, Copy, Debug, PartialEq, Eq, Hash, Structural)]
pub enum Modifier {
    /// The screen reader's own modifier: usually caps lock or insert.
    Odilia,
    ControlL,
    ControlR,
    AltL,
    AltR,
    ShiftL,
    ShiftR,
    MetaL,
    MetaR,
    Applications,
}

/// The bits of all ten modifier flags.
pub const ALL_MODIFIER_BITS: u16 = 0x3ff;

/// Whether `k` is the bit of exactly one modifier flag.
pub open spec fn is_flag_bit(k: u16) -> bool {
    k == 0x001 || k == 0x002 || k == 0x004 || k == 0x008 || k == 0x010 || k == 0x020 || k == 0x040
        || k == 0x080 || k == 0x100 || k == 0x200
}

/// Whether `bits` sets no bit outside the ten modifier flags.
pub open spec fn only_flag_bits(bits: u16) -> bool {
    bits & 0x3ff == bits
}

impl Modifier {
    /// The bit that stands for this flag in a packed modifier set.
    pub open spec fn mask(self) -> u16 {
        match self {
            Modifier::Odilia => 0x001,
            Modifier::ControlL => 0x002,
            Modifier::ControlR => 0x004,
            Modifier::AltL => 0x008,
            Modifier::AltR => 0x010,
            Modifier::ShiftL => 0x020,
            Modifier::ShiftR => 0x040,
            Modifier::MetaL => 0x080,
            Modifier::MetaR => 0x100,
            Modifier::Applications => 0x200,
        }
    }

    /// The bit that stands for this flag in a packed modifier set.
    pub fn bit(self) -> (res: u16)
        ensures
            res == self.mask(),
    {
        match self {
            Modifier::Odilia => 0x001,
            Modifier::ControlL => 0x002,
            Modifier::ControlR => 0x004,
            Modifier::AltL => 0x008,
            Modifier::AltR => 0x010,
            Modifier::ShiftL => 0x020,
            Modifier::ShiftR => 0x040,
            Modifier::MetaL => 0x080,
            Modifier::MetaR => 0x100,
            Modifier::Applications => 0x200,
        }
    }
}

/// Whether two sets of modifier flags share a flag.
pub open spec fn overlap(a: Set<Modifier>, b: Set<Modifier>) -> bool {
    exists|m: Modifier| a.contains(m) && b.contains(m)
}

/// The flags that a packed modifier set holds.
pub open spec fn flags_of(bits: u16) -> Set<Modifier> {
    Set::new(|m: Modifier| bits & m.mask() != 0)
}

proof fn lemma_no_bits(k: u16)
    by (bit_vector)
    ensures
        0u16 & k == 0,
        only_flag_bits(0u16),
{
}

proof fn lemma_flag_bit(k: u16)
    by (bit_vector)
    requires
        is_flag_bit(k),
    ensures
        k != 0,
        only_flag_bits(k),
        k & k == k,
{
}

proof fn lemma_two_flag_bits(j: u16, k: u16)
    by (bit_vector)
    requires
        is_flag_bit(j),
        is_flag_bit(k),
        j != k,
    ensures
        j & k == 0,
{
}

proof fn lemma_union_bits(a: u16, b: u16, k: u16)
    by (bit_vector)
    ensures
        ((a | b) & k != 0) == (a & k != 0 || b & k != 0),
        only_flag_bits(a) && only_flag_bits(b) ==> only_flag_bits(a | b),
{
}

proof fn lemma_some_flag_bit(a: u16)
    by (bit_vector)
    requires
        only_flag_bits(a),
        a != 0,
    ensures
        a & 0x001 != 0 || a & 0x002 != 0 || a & 0x004 != 0 || a & 0x008 != 0 || a & 0x010 != 0 || a
            & 0x020 != 0 || a & 0x040 != 0 || a & 0x080 != 0 || a & 0x100 != 0 || a & 0x200 != 0,
{
}

proof fn lemma_common_bits(a: u16, b: u16, k: u16)
    by (bit_vector)
    ensures
        only_flag_bits(a) ==> only_flag_bits(a & b),
        ((a & b) & k != 0) ==> (a & k != 0 && b & k != 0),
        is_flag_bit(k) && a & k != 0 && b & k != 0 ==> a & b != 0,
        a & k != 0 ==> a != 0,
        only_flag_bits(a & 0x3ff),
        only_flag_bits(a) ==> a & 0x3ff == a,
{
}

/// A packed modifier set that sets only flag bits is zero exactly when it
/// holds no flag.
proof fn lemma_empty_flags(bits: u16)
    requires
        only_flag_bits(bits),
    ensures
        (bits == 0) <==> flags_of(bits) =~= Set::<Modifier>::empty(),
{
    if bits == 0 {
        assert forall|m: Modifier| !flags_of(bits).contains(m) by {
            lemma_no_bits(m.mask());
        }
    } else {
        lemma_some_flag_bit(bits);
        assert(flags_of(bits).contains(Modifier::Odilia) || flags_of(bits).contains(
            Modifier::ControlL,
        ) || flags_of(bits).contains(Modifier::ControlR) || flags_of(bits).contains(Modifier::AltL)
            || flags_of(bits).contains(Modifier::AltR) || flags_of(bits).contains(Modifier::ShiftL)
            || flags_of(bits).contains(Modifier::ShiftR) || flags_of(bits).contains(
            Modifier::MetaL,
        ) || flags_of(bits).contains(Modifier::MetaR) || flags_of(bits).contains(
            Modifier::Applications,
        ));
    }
}

/// Two packed modifier sets have a common bit exactly when they share a flag.
proof fn lemma_overlap_flags(a: u16, b: u16)
    requires
        only_flag_bits(a),
    ensures
        (a & b != 0) <==> overlap(flags_of(a), flags_of(b)),
{
    if a & b != 0 {
        lemma_common_bits(a, b, 0);
        lemma_empty_flags(a & b);
        let m = choose|m: Modifier| flags_of(a & b).contains(m);
        assert(flags_of(a & b).contains(m));
        lemma_common_bits(a, b, m.mask());
        assert(flags_of(a).contains(m) && flags_of(b).contains(m));
    }
    if overlap(flags_of(a), flags_of(b)) {
        let m = choose|m: Modifier| flags_of(a).contains(m) && flags_of(b).contains(m);
        lemma_common_bits(a, b, m.mask());
    }
}

/// A set of modifier flags, packed into the low ten bits of a `u16`.
#[derive(Clone, Copy, Debug, PartialEq, Eq, Hash)]
pub struct Modifiers {
    bits: u16,
}

impl View for Modifiers {
    type V = Set<Modifier>;

    /// The flags that the set holds.
    closed spec fn view(&self) -> Set<Modifier> {
        flags_of(self.bits)
    }
}

impl Modifiers {
    #[verifier::type_invariant]
    spec fn packed(self) -> bool {
        only_flag_bits(self.bits)
    }

    /// The packed form of the set, as `bits` returns it.
    pub closed spec fn spec_bits(self) -> u16 {
        self.bits
    }

    /// The set without any flag.
    pub fn none() -> (res: Self)
        ensures
            res@ == Set::<Modifier>::empty(),
            res.spec_bits() == 0,
    {
        proof {
            lemma_no_bits(0);
            lemma_empty_flags(0);
        }
        Modifiers { bits: 0 }
    }

    /// The set that holds `flag` alone.
    pub fn only(flag: Modifier) -> (res: Self)
        ensures
            res@ == Set::<Modifier>::empty().insert(flag),
            res.spec_bits() == flag.mask(),
    {
        proof {
            lemma_flag_bit(flag.mask());
            assert forall|m: Modifier|
                flags_of(flag.mask()).contains(m) <==> Set::<Modifier>::empty().insert(
                    flag,
                ).contains(m) by {
                if m != flag {
                    lemma_two_flag_bits(flag.mask(), m.mask());
                }
            }
            assert(flags_of(flag.mask()) =~= Set::<Modifier>::empty().insert(flag));
        }
        Modifiers { bits: flag.bit() }
    }

    /// The set with `flag` added.
    pub fn with(self, flag: Modifier) -> (res: Self)
        ensures
            res@ == self@.insert(flag),
            res.spec_bits() == self.spec_bits() | flag.mask(),
    {
        proof {
            use_type_invariant(self);
            lemma_flag_bit(flag.mask());
            lemma_union_bits(self.bits, flag.mask(), 0);
            assert forall|m: Modifier|
                flags_of(self.bits | flag.mask()).contains(m) <==> flags_of(self.bits).insert(
                    flag,
                ).contains(m) by {
                lemma_union_bits(self.bits, flag.mask(), m.mask());
                if m != flag {
                    lemma_two_flag_bits(flag.mask(), m.mask());
                }
            }
            assert(flags_of(self.bits | flag.mask()) =~= flags_of(self.bits).insert(flag));
        }
        Modifiers { bits: self.bits | flag.bit() }
    }

    /// The set of the flags that `self` or `other` holds.
    pub fn union(self, other: Modifiers) -> (res: Self)
        ensures
            res@ == self@.union(other@),
            res.spec_bits() == self.spec_bits() | other.spec_bits(),
    {
        proof {
            use_type_invariant(self);
            use_type_invariant(other);
            lemma_union_bits(self.bits, other.bits, 0);
            assert forall|m: Modifier|
                flags_of(self.bits | other.bits).contains(m) <==> flags_of(self.bits).union(
                    flags_of(other.bits),
                ).contains(m) by {
                lemma_union_bits(self.bits, other.bits, m.mask());
            }
            assert(flags_of(self.bits | other.bits) =~= flags_of(self.bits).union(
                flags_of(other.bits),
            ));
        }
        Modifiers { bits: self.bits | other.bits }
    }

    /// Whether the set holds `flag`.
    pub fn contains(self, flag: Modifier) -> (res: bool)
        ensures
            res == self@.contains(flag),
    {
        self.bits & flag.bit() != 0
    }

    /// Whether the set holds no flag.
    pub fn is_empty(self) -> (res: bool)
        ensures
            res == (self@ == Set::<Modifier>::empty()),
    {
        proof {
            use_type_invariant(self);
            lemma_empty_flags(self.bits);
        }
        self.bits == 0
    }

    /// Whether the two sets share at least one flag.
    pub fn intersects(self, other: Modifiers) -> (res: bool)
        ensures
            res == overlap(self@, other@),
    {
        proof {
            use_type_invariant(self);
            lemma_overlap_flags(self.bits, other.bits);
        }
        self.bits & other.bits != 0
    }

    /// Whether the two sets hold the same flags.
    pub fn same_as(self, other: Modifiers) -> (res: bool)
        ensures
            res == (self@ == other@),
    {
        proof {
            use_type_invariant(self);
            use_type_invariant(other);
            lemma_same_flags(self.bits, other.bits);
        }
        self.bits == other.bits
    }

    /// The packed form of the set: one bit for each flag that it holds.
    pub fn bits(self) -> (res: u16)
        ensures
            res == self.spec_bits(),
            only_flag_bits(res),
            self@ == flags_of(res),
    {
        proof {
            use_type_invariant(self);
        }
        self.bits
    }

    /// The set with the given packed form, where it sets no other bit than
    /// those of the ten flags.
    pub fn from_bits(bits: u16) -> (res: Option<Self>)
        ensures
            res is Some <==> only_flag_bits(bits),
            res matches Some(m) ==> m.spec_bits() == bits && m@ == flags_of(bits),
    {
        if bits & ALL_MODIFIER_BITS == bits {
            Some(Modifiers { bits })
        } else {
            None
        }
    }

    /// The set of the flags whose bits `bits` sets; any other bit is dropped.
    pub fn from_bits_truncate(bits: u16) -> (res: Self)
        ensures
            res@ == flags_of(bits),
            res.spec_bits() == bits & ALL_MODIFIER_BITS,
    {
        proof {
            lemma_common_bits(bits, 0, 0);
            assert forall|m: Modifier|
                flags_of(bits & 0x3ff).contains(m) <==> flags_of(bits).contains(m) by {
                lemma_mask_in_range(bits, m.mask());
            }
            assert(flags_of(bits & 0x3ff) =~= flags_of(bits));
        }
        Modifiers { bits: bits & ALL_MODIFIER_BITS }
    }

    /// Both control keys.
    pub fn control() -> (res: Self)
        ensures
            res@ == Set::<Modifier>::empty().insert(Modifier::ControlL).insert(Modifier::ControlR),
    {
        Modifiers::only(Modifier::ControlL).with(Modifier::ControlR)
    }

    /// Both alt keys.
    pub fn alt() -> (res: Self)
        ensures
            res@ == Set::<Modifier>::empty().insert(Modifier::AltL).insert(Modifier::AltR),
    {
        Modifiers::only(Modifier::AltL).with(Modifier::AltR)
    }

    /// Both shift keys.
    pub fn shift() -> (res: Self)
        ensures
            res@ == Set::<Modifier>::empty().insert(Modifier::ShiftL).insert(Modifier::ShiftR),
    {
        Modifiers::only(Modifier::ShiftL).with(Modifier::ShiftR)
    }

    /// Both meta keys.
    pub fn meta() -> (res: Self)
        ensures
            res@ == Set::<Modifier>::empty().insert(Modifier::MetaL).insert(Modifier::MetaR),
    {
        Modifiers::only(Modifier::MetaL).with(Modifier::MetaR)
    }
}

proof fn lemma_same_bits(a: u16, b: u16)
    by (bit_vector)
    requires
        only_flag_bits(a),
        only_flag_bits(b),
        (a & 0x001 != 0) == (b & 0x001 != 0),
        (a & 0x002 != 0) == (b & 0x002 != 0),
        (a & 0x004 != 0) == (b & 0x004 != 0),
        (a & 0x008 != 0) == (b & 0x008 != 0),
        (a & 0x010 != 0) == (b & 0x010 != 0),
        (a & 0x020 != 0) == (b & 0x020 != 0),
        (a & 0x040 != 0) == (b & 0x040 != 0),
        (a & 0x080 != 0) == (b & 0x080 != 0),
        (a & 0x100 != 0) == (b & 0x100 != 0),
        (a & 0x200 != 0) == (b & 0x200 != 0),
    ensures
        a == b,
{
}

/// Two packed modifier sets that set only flag bits are equal exactly when
/// they hold the same flags.
proof fn lemma_same_flags(a: u16, b: u16)
    requires
        only_flag_bits(a),
        only_flag_bits(b),
    ensures
        (a == b) <==> flags_of(a) == flags_of(b),
{
    if flags_of(a) == flags_of(b) {
        assert(flags_of(a).contains(Modifier::Odilia) == flags_of(b).contains(Modifier::Odilia));
        assert(flags_of(a).contains(Modifier::ControlL) == flags_of(b).contains(
            Modifier::ControlL,
        ));
        assert(flags_of(a).contains(Modifier::ControlR) == flags_of(b).contains(
            Modifier::ControlR,
        ));
        assert(flags_of(a).contains(Modifier::AltL) == flags_of(b).contains(Modifier::AltL));
        assert(flags_of(a).contains(Modifier::AltR) == flags_of(b).contains(Modifier::AltR));
        assert(flags_of(a).contains(Modifier::ShiftL) == flags_of(b).contains(Modifier::ShiftL));
        assert(flags_of(a).contains(Modifier::ShiftR) == flags_of(b).contains(Modifier::ShiftR));
        assert(flags_of(a).contains(Modifier::MetaL) == flags_of(b).contains(Modifier::MetaL));
        assert(flags_of(a).contains(Modifier::MetaR) == flags_of(b).contains(Modifier::MetaR));
        assert(flags_of(a).contains(Modifier::Applications) == flags_of(b).contains(
            Modifier::Applications,
        ));
        lemma_same_bits(a, b);
    }
}

proof fn lemma_mask_in_range(a: u16, k: u16)
    by (bit_vector)
    requires
        is_flag_bit(k),
    ensures
        ((a & 0x3ff) & k != 0) == (a & k != 0),
{
}

/// Why a key binding was refused when it was put together.
#[derive(Clone, Copy, Debug, PartialEq, Eq, Hash, Structural)]
pub enum ConfigError {
    /// The repeat count was zero: a binding counts at least one press.
    ZeroRepeat,
}

/// What a key occurrence is: the key, the modifier flags held and the number
/// of presses.
pub struct KeyEventView {
    pub key: Key,
    pub mods: Set<Modifier>,
    pub repeat: nat,
}

/// One key-press occurrence as it happened.
#[derive(Clone, Copy, Debug, PartialEq, Eq, Hash)]
pub struct KeyEvent {
    key: Key,
    mods: Modifiers,
    repeat: u8,
}

impl View for KeyEvent {
    type V = KeyEventView;

    closed spec fn view(&self) -> KeyEventView {
        KeyEventView { key: self.key, mods: self.mods@, repeat: self.repeat as nat }
    }
}

impl KeyEvent {
    #[verifier::type_invariant]
    spec fn counted(self) -> bool {
        self.repeat >= 1
    }

    /// The occurrence of `repeat` presses of `key` with `mods` held, unless
    /// `repeat` is zero.
    pub fn new(key: Key, mods: Modifiers, repeat: u8) -> (res: Option<KeyEvent>)
        ensures
            res is Some <==> repeat >= 1,
            res matches Some(e) ==> e@ == (KeyEventView {
                key,
                mods: mods@,
                repeat: repeat as nat,
            }),
    {
        if repeat == 0 {
            None
        } else {
            Some(KeyEvent { key, mods, repeat })
        }
    }

    /// The key that was pressed.
    pub fn key(&self) -> (res: Key)
        ensures
            res == self@.key,
    {
        self.key
    }

    /// The modifier flags that were held.
    pub fn mods(&self) -> (res: Modifiers)
        ensures
            res@ == self@.mods,
    {
        self.mods
    }

    /// How many times the key was pressed in a row: at least once.
    pub fn repeat(&self) -> (res: u8)
        ensures
            res == self@.repeat,
            res >= 1,
    {
        proof {
            use_type_invariant(self);
        }
        self.repeat
    }
}

/// What makes two bindings the same binding: key, modifier flags, repeat count
/// and mode. The `consume` and `notify` flags are no part of it.
pub struct BindingIdentity {
    pub key: Option<Key>,
    pub mods: Set<Modifier>,
    pub repeat: nat,
    pub mode: Option<Seq<char>>,
}

/// What a key binding is. An absent key stands for any key, an absent mode
/// for every mode.
pub struct KeyBindingView {
    pub key: Option<Key>,
    pub mods: Set<Modifier>,
    pub repeat: nat,
    pub mode: Option<Seq<char>>,
    pub consume: bool,
    pub notify: bool,
}

impl KeyBindingView {
    /// The identity of the binding.
    pub open spec fn identity(self) -> BindingIdentity {
        BindingIdentity { key: self.key, mods: self.mods, repeat: self.repeat, mode: self.mode }
    }
}

/// A rule that selects key occurrences, with what is to happen to those it
/// selects: whether the keystroke is withheld from the rest of the system
/// (`consume`) and whether the binding is handed on for dispatch (`notify`).
///
/// `==` and hashing go by all six fields. Two bindings that differ in
/// `consume` or `notify` alone are unequal and still the same binding to the
/// registry: for that, ask `same_identity`.
#[derive(Debug, PartialEq, Eq, Hash)]
pub struct KeyBinding {
    key: Option<Key>,
    mods: Modifiers,
    repeat: u8,
    mode: Option<ScreenReaderMode>,
    consume: bool,
    notify: bool,
}

/// The name of an optional mode.
pub open spec fn mode_name(mode: Option<ScreenReaderMode>) -> Option<Seq<char>> {
    match mode {
        Some(m) => Some(m@),
        None => None,
    }
}

impl View for KeyBinding {
    type V = KeyBindingView;

    closed spec fn view(&self) -> KeyBindingView {
        KeyBindingView {
            key: self.key,
            mods: self.mods@,
            repeat: self.repeat as nat,
            mode: mode_name(self.mode),
            consume: self.consume,
            notify: self.notify,
        }
    }
}

impl Clone for KeyBinding {
    fn clone(&self) -> (res: Self)
        ensures
            res@ == self@,
    {
        proof {
            use_type_invariant(self);
        }
        let mode = match &self.mode {
            Some(m) => Some(m.clone()),
            None => None,
        };
        KeyBinding {
            key: self.key,
            mods: self.mods,
            repeat: self.repeat,
            mode,
            consume: self.consume,
            notify: self.notify,
        }
    }
}

impl KeyBinding {
    #[verifier::type_invariant]
    spec fn counted(self) -> bool {
        self.repeat >= 1
    }

    /// The binding for one press of `key` (of any key, where `key` is absent)
    /// without modifier flags, in every mode, that consumes the keystroke and
    /// notifies.
    pub fn new(key: Option<Key>) -> (res: KeyBinding)
        ensures
            res@ == (KeyBindingView {
                key,
                mods: Set::<Modifier>::empty(),
                repeat: 1,
                mode: None,
                consume: true,
                notify: true,
            }),
    {
        KeyBinding {
            key,
            mods: Modifiers::none(),
            repeat: 1,
            mode: None,
            consume: true,
            notify: true,
        }
    }

    /// The same binding with the modifier flags `mods`.
    pub fn with_mods(self, mods: Modifiers) -> (res: KeyBinding)
        ensures
            res@ == (KeyBindingView { mods: mods@, ..self@ }),
    {
        proof {
            use_type_invariant(&self);
        }
        KeyBinding {
            key: self.key,
            mods,
            repeat: self.repeat,
            mode: self.mode,
            consume: self.consume,
            notify: self.notify,
        }
    }

    /// The same binding for `repeat` presses in a row; a count of zero is
    /// refused.
    pub fn with_repeat(self, repeat: u8) -> (res: Result<KeyBinding, ConfigError>)
        ensures
            res is Ok <==> repeat >= 1,
            res matches Ok(b) ==> b@ == (KeyBindingView { repeat: repeat as nat, ..self@ }),
            res matches Err(e) ==> e == ConfigError::ZeroRepeat,
    {
        if repeat == 0 {
            Err(ConfigError::ZeroRepeat)
        } else {
            Ok(
                KeyBinding {
                    key: self.key,
                    mods: self.mods,
                    repeat,
                    mode: self.mode,
                    consume: self.consume,
                    notify: self.notify,
                },
            )
        }
    }

    /// The same binding scoped to `mode`, or to every mode where `mode` is
    /// absent.
    pub fn with_mode(self, mode: Option<ScreenReaderMode>) -> (res: KeyBinding)
        ensures
            res@ == (KeyBindingView { mode: mode_name(mode), ..self@ }),
    {
        proof {
            use_type_invariant(&self);
        }
        KeyBinding {
            key: self.key,
            mods: self.mods,
            repeat: self.repeat,
            mode,
            consume: self.consume,
            notify: self.notify,
        }
    }

    /// The same binding with the given `consume` flag.
    pub fn with_consume(self, consume: bool) -> (res: KeyBinding)
        ensures
            res@ == (KeyBindingView { consume, ..self@ }),
    {
        proof {
            use_type_invariant(&self);
        }
        KeyBinding {
            key: self.key,
            mods: self.mods,
            repeat: self.repeat,
            mode: self.mode,
            consume,
            notify: self.notify,
        }
    }

    /// The same binding with the given `notify` flag.
    pub fn with_notify(self, notify: bool) -> (res: KeyBinding)
        ensures
            res@ == (KeyBindingView { notify, ..self@ }),
    {
        proof {
            use_type_invariant(&self);
        }
        KeyBinding {
            key: self.key,
            mods: self.mods,
            repeat: self.repeat,
            mode: self.mode,
            consume: self.consume,
            notify,
        }
    }

    /// The key that the binding asks for, if it asks for one.
    pub fn key(&self) -> (res: Option<Key>)
        ensures
            res == self@.key,
    {
        self.key
    }

    /// The modifier flags of the binding.
    pub fn mods(&self) -> (res: Modifiers)
        ensures
            res@ == self@.mods,
    {
        self.mods
    }

    /// The number of presses in a row that the binding asks for: at least one.
    pub fn repeat(&self) -> (res: u8)
        ensures
            res == self@.repeat,
            res >= 1,
    {
        proof {
            use_type_invariant(self);
        }
        self.repeat
    }

    /// The mode that the binding is scoped to, if it is scoped to one.
    pub fn mode(&self) -> (res: Option<&ScreenReaderMode>)
        ensures
            res is Some <==> self@.mode is Some,
            res matches Some(m) ==> self@.mode == Some(m@),
    {
        self.mode.as_ref()
    }

    /// Whether a keystroke that the binding selects is withheld from the rest
    /// of the system.
    pub fn consume(&self) -> (res: bool)
        ensures
            res == self@.consume,
    {
        self.consume
    }

    /// Whether a keystroke that the binding selects is handed on for dispatch.
    pub fn notify(&self) -> (res: bool)
        ensures
            res == self@.notify,
    {
        self.notify
    }

    /// Whether the two bindings have the same identity.
    pub fn same_identity(&self, other: &KeyBinding) -> (res: bool)
        ensures
            res == (self@.identity() == other@.identity()),
    {
        let same_key = match (self.key, other.key) {
            (Some(a), Some(b)) => a == b,
            (None, None) => true,
            _ => false,
        };
        let same_mode = match (&self.mode, &other.mode) {
            (Some(a), Some(b)) => a.same_as(b),
            (None, None) => true,
            _ => false,
        };
        same_key && self.mods.same_as(other.mods) && self.repeat == other.repeat && same_mode
    }
}

} // verus!
