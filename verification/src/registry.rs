//! The registry of key bindings: which action each binding stands for.
//!
//! The registry keeps its bindings in the order in which they were first
//! registered, and holds no two with the same identity. Registering a binding
//! whose identity is there already replaces that binding and its action where
//! they stand, and hands the former action back.

use crate::events::{event_view, EventTypeView, ScreenReaderEventType};
use crate::input::{BindingIdentity, KeyBinding, KeyBindingView};
use crate::keybinds::binding_views;
use vstd::prelude::*;

verus! {

/// What a registration is: a binding and the action that it stands for.
pub struct RegistrationView {
    pub binding: KeyBindingView,
    pub action: EventTypeView,
}

/// The place in `rs` of the first registration with identity `id`.
pub open spec fn position(rs: Seq<RegistrationView>, id: BindingIdentity) -> Option<int>
    decreases rs.len(),
{
    if rs.len() == 0 {
        None
    } else {
        match position(rs.drop_last(), id) {
            Some(i) => Some(i),
            None => if rs.last().binding.identity() == id {
                Some(rs.len() - 1)
            } else {
                None
            },
        }
    }
}

/// The action registered in `rs` for identity `id`.
pub open spec fn action_of(rs: Seq<RegistrationView>, id: BindingIdentity) -> Option<
    EventTypeView,
> {
    match position(rs, id) {
        Some(i) => Some(rs[i].action),
        None => None,
    }
}

/// `rs` after `r` is registered: `r` takes the place of the registration with
/// its identity, or comes last where there is none.
pub open spec fn with_registration(rs: Seq<RegistrationView>, r: RegistrationView) -> Seq<
    RegistrationView,
> {
    match position(rs, r.binding.identity()) {
        Some(i) => rs.update(i, r),
        None => rs.push(r),
    }
}

/// `rs` after the registration with identity `id` is taken out, if there is
/// one; the others keep their order.
pub open spec fn without_binding(rs: Seq<RegistrationView>, id: BindingIdentity) -> Seq<
    RegistrationView,
> {
    match position(rs, id) {
        Some(i) => rs.remove(i),
        None => rs,
    }
}

/// The bindings of `rs`, in order.
pub open spec fn bindings_of(rs: Seq<RegistrationView>) -> Seq<KeyBindingView> {
    Seq::new(rs.len(), |i: int| rs[i].binding)
}

/// Whether no two registrations of `rs` have the same identity.
pub open spec fn distinct_identities(rs: Seq<RegistrationView>) -> bool {
    forall|i: int, j: int|
        0 <= i < j < rs.len() ==> (#[trigger] rs[i]).binding.identity() != (
        #[trigger] rs[j]).binding.identity()
}

/// The position of an identity is that of a registration with this identity
/// before which none with it stands; there is none exactly when no
/// registration has the identity.
pub proof fn lemma_position(rs: Seq<RegistrationView>, id: BindingIdentity)
    ensures
        position(rs, id) matches Some(i) ==> 0 <= i < rs.len() && rs[i].binding.identity() == id
            && forall|j: int| 0 <= j < i ==> (#[trigger] rs[j]).binding.identity() != id,
        position(rs, id) is None ==> forall|j: int|
            0 <= j < rs.len() ==> (#[trigger] rs[j]).binding.identity() != id,
    decreases rs.len(),
{
    if rs.len() > 0 {
        let front = rs.drop_last();
        lemma_position(front, id);
        match position(front, id) {
            Some(i) => {
                assert(front[i] == rs[i]);
                assert forall|j: int| 0 <= j < i implies (#[trigger] rs[j]).binding.identity()
                    != id by {
                    assert(front[j] == rs[j]);
                }
            },
            None => {
                assert forall|j: int| 0 <= j < rs.len() - 1 implies (
                #[trigger] rs[j]).binding.identity() != id by {
                    assert(front[j] == rs[j]);
                }
            },
        }
    }
}

/// A registration with identity `id` before which none with it stands is at
/// the position of `id`.
pub proof fn lemma_position_is(rs: Seq<RegistrationView>, id: BindingIdentity, i: int)
    requires
        0 <= i < rs.len(),
        rs[i].binding.identity() == id,
        forall|j: int| 0 <= j < i ==> (#[trigger] rs[j]).binding.identity() != id,
    ensures
        position(rs, id) == Some(i),
{
    lemma_position(rs, id);
}

/// Registering keeps the identities distinct.
pub proof fn lemma_with_registration_distinct(rs: Seq<RegistrationView>, r: RegistrationView)
    requires
        distinct_identities(rs),
    ensures
        distinct_identities(with_registration(rs, r)),
{
    lemma_position(rs, r.binding.identity());
    let after = with_registration(rs, r);
    assert forall|i: int, j: int| 0 <= i < j < after.len() implies (
    #[trigger] after[i]).binding.identity() != (#[trigger] after[j]).binding.identity() by {
        match position(rs, r.binding.identity()) {
            Some(k) => {
                if i != k && j != k {
                    assert(rs[i].binding.identity() != rs[j].binding.identity());
                } else if i == k {
                    assert(rs[k].binding.identity() != rs[j].binding.identity());
                } else {
                    assert(rs[i].binding.identity() != rs[k].binding.identity());
                }
            },
            None => {
                if j < rs.len() {
                    assert(rs[i].binding.identity() != rs[j].binding.identity());
                } else {
                    assert(rs[i].binding.identity() != r.binding.identity());
                }
            },
        }
    }
}

/// Taking a registration out keeps the identities distinct.
pub proof fn lemma_without_binding_distinct(rs: Seq<RegistrationView>, id: BindingIdentity)
    requires
        distinct_identities(rs),
    ensures
        distinct_identities(without_binding(rs, id)),
{
    lemma_position(rs, id);
    let after = without_binding(rs, id);
    assert forall|i: int, j: int| 0 <= i < j < after.len() implies (
    #[trigger] after[i]).binding.identity() != (#[trigger] after[j]).binding.identity() by {
        match position(rs, id) {
            Some(k) => {
                let a = if i < k {
                    i
                } else {
                    i + 1
                };
                let b = if j < k {
                    j
                } else {
                    j + 1
                };
                assert(after[i] == rs[a]);
                assert(after[j] == rs[b]);
                assert(rs[a].binding.identity() != rs[b].binding.identity());
            },
            None => {
                assert(rs[i].binding.identity() != rs[j].binding.identity());
            },
        }
    }
}

/// One registered binding with its action.
struct Registration {
    binding: KeyBinding,
    action: ScreenReaderEventType,
}

impl View for Registration {
    type V = RegistrationView;

    closed spec fn view(&self) -> RegistrationView {
        RegistrationView { binding: self.binding@, action: self.action@ }
    }
}

/// What each of the registrations is, in order.
spec fn registration_views(entries: Seq<Registration>) -> Seq<RegistrationView> {
    Seq::new(entries.len(), |i: int| entries[i]@)
}

/// The registered key bindings, each with its action.
pub struct BindingRegistry {
    entries: Vec<Registration>,
}

impl View for BindingRegistry {
    type V = Seq<RegistrationView>;

    /// The registrations, in the order in which their identities were first
    /// registered.
    closed spec fn view(&self) -> Seq<RegistrationView> {
        registration_views(self.entries@)
    }
}

impl BindingRegistry {
    #[verifier::type_invariant]
    spec fn well_formed(self) -> bool {
        distinct_identities(registration_views(self.entries@))
    }

    /// The registry without any binding.
    pub fn new() -> (res: BindingRegistry)
        ensures
            res@ == Seq::<RegistrationView>::empty(),
    {
        let res = BindingRegistry { entries: Vec::new() };
        assert(res@ =~= Seq::<RegistrationView>::empty());
        res
    }

    /// The number of registered bindings.
    pub fn len(&self) -> (res: usize)
        ensures
            res == self@.len(),
            distinct_identities(self@),
    {
        proof {
            use_type_invariant(self);
        }
        self.entries.len()
    }

    /// Whether no binding is registered.
    pub fn is_empty(&self) -> (res: bool)
        ensures
            res == (self@.len() == 0),
    {
        self.entries.len() == 0
    }

    /// The place of the registration with the identity of `binding`.
    fn find(&self, binding: &KeyBinding) -> (res: Option<usize>)
        ensures
            match res {
                Some(i) => i < self@.len() && position(self@, binding@.identity()) == Some(
                    i as int,
                ),
                None => position(self@, binding@.identity()) is None,
            },
            self@.len() == self.entries@.len(),
    {
        let ghost rs = self@;
        let ghost id = binding@.identity();
        let mut i: usize = 0;
        while i < self.entries.len()
            invariant
                i <= self.entries.len(),
                rs == self@,
                rs.len() == self.entries.len(),
                id == binding@.identity(),
                forall|j: int| 0 <= j < i ==> (#[trigger] rs[j]).binding.identity() != id,
            decreases self.entries.len() - i,
        {
            assert(rs[i as int] == self.entries@[i as int]@);
            if self.entries[i].binding.same_identity(binding) {
                proof {
                    lemma_position_is(rs, id, i as int);
                }
                return Some(i);
            }
            i += 1;
        }
        proof {
            lemma_position(rs, id);
        }
        None
    }

    /// Registers `binding` for `action`. Where a binding with the same
    /// identity is registered already, the new binding and action take its
    /// place and its former action is returned: the last registration wins,
    /// and the caller learns of the collision.
    pub fn register(&mut self, binding: KeyBinding, action: ScreenReaderEventType) -> (res: Option<
        ScreenReaderEventType,
    >)
        ensures
            final(self)@ == with_registration(
                old(self)@,
                RegistrationView { binding: binding@, action: action@ },
            ),
            event_view(res) == action_of(old(self)@, binding@.identity()),
            distinct_identities(final(self)@),
    {
        proof {
            use_type_invariant(&*self);
        }
        let ghost before = self@;
        let ghost r = RegistrationView { binding: binding@, action: action@ };
        proof {
            lemma_with_registration_distinct(before, r);
            lemma_position(before, r.binding.identity());
        }
        let found = self.find(&binding);
        let mut entries: Vec<Registration> = Vec::new();
        core::mem::swap(&mut self.entries, &mut entries);
        let mut entry = Registration { binding, action };
        let res = match found {
            Some(i) => {
                assert(registration_views(entries@.update(i as int, entry)) =~= before.update(
                    i as int,
                    r,
                ));
                assert(before[i as int] == entries@[i as int]@);
                entries.set_and_swap(i, &mut entry);
                Some(entry.action)
            },
            None => {
                assert(registration_views(entries@.push(entry)) =~= before.push(r));
                entries.push(entry);
                None
            },
        };
        self.entries = entries;
        res
    }

    /// Takes the binding with the identity of `binding` out of the registry,
    /// and says whether there was one.
    pub fn unregister(&mut self, binding: &KeyBinding) -> (res: bool)
        ensures
            final(self)@ == without_binding(old(self)@, binding@.identity()),
            res == (position(old(self)@, binding@.identity()) is Some),
            distinct_identities(final(self)@),
    {
        proof {
            use_type_invariant(&*self);
        }
        let ghost before = self@;
        proof {
            lemma_without_binding_distinct(before, binding@.identity());
            lemma_position(before, binding@.identity());
        }
        match self.find(binding) {
            Some(i) => {
                let mut entries: Vec<Registration> = Vec::new();
                core::mem::swap(&mut self.entries, &mut entries);
                assert(registration_views(entries@.remove(i as int)) =~= before.remove(i as int));
                let _ = entries.remove(i);
                self.entries = entries;
                true
            },
            None => false,
        }
    }

    /// The action registered for the identity of `binding`, if there is one.
    pub fn lookup(&self, binding: &KeyBinding) -> (res: Option<ScreenReaderEventType>)
        ensures
            event_view(res) == action_of(self@, binding@.identity()),
    {
        match self.find(binding) {
            Some(i) => {
                assert(self@[i as int] == self.entries@[i as int]@);
                Some(self.entries[i].action.clone())
            },
            None => None,
        }
    }

    /// A copy of the registered bindings, in registration order. It does not
    /// change when the registry does.
    pub fn snapshot(&self) -> (res: Vec<KeyBinding>)
        ensures
            binding_views(res@) == bindings_of(self@),
            distinct_identities(self@),
    {
        proof {
            use_type_invariant(self);
        }
        let mut out: Vec<KeyBinding> = Vec::new();
        let mut i: usize = 0;
        while i < self.entries.len()
            invariant
                i <= self.entries.len(),
                out@.len() == i,
                forall|j: int| 0 <= j < i ==> (#[trigger] out@[j])@ == self.entries@[j].binding@,
            decreases self.entries.len() - i,
        {
            out.push(self.entries[i].binding.clone());
            i += 1;
        }
        assert(binding_views(out@) =~= bindings_of(self@));
        out
    }
}

/// Whether a binding with identity `id` is among the bindings of `rs`, as a
/// snapshot lists them.
pub open spec fn snapshot_has(rs: Seq<RegistrationView>, id: BindingIdentity) -> bool {
    exists|i: int| 0 <= i < bindings_of(rs).len() && (#[trigger] bindings_of(rs)[i]).identity() == id
}

/// A snapshot has a binding with a given identity exactly when the identity
/// has a position in the registry.
pub proof fn lemma_snapshot_has(rs: Seq<RegistrationView>, id: BindingIdentity)
    ensures
        snapshot_has(rs, id) <==> position(rs, id) is Some,
{
    lemma_position(rs, id);
    if snapshot_has(rs, id) {
        let i = choose|i: int|
            0 <= i < bindings_of(rs).len() && (#[trigger] bindings_of(rs)[i]).identity() == id;
        assert(rs[i].binding.identity() == id);
    }
    if position(rs, id) is Some {
        let i = position(rs, id).unwrap();
        assert(bindings_of(rs)[i].identity() == id);
    }
}

/// After a binding is registered, the snapshot lists it, once, and its action
/// is the one it was registered for.
pub proof fn lemma_registered_is_listed(rs: Seq<RegistrationView>, r: RegistrationView)
    ensures
        bindings_of(with_registration(rs, r)).contains(r.binding),
        snapshot_has(with_registration(rs, r), r.binding.identity()),
        action_of(with_registration(rs, r), r.binding.identity()) == Some(r.action),
{
    let id = r.binding.identity();
    let after = with_registration(rs, r);
    lemma_position(rs, id);
    let k = match position(rs, id) {
        Some(i) => i,
        None => rs.len() as int,
    };
    assert(after[k] == r);
    assert forall|j: int| 0 <= j < k implies (#[trigger] after[j]).binding.identity() != id by {
        assert(after[j] == rs[j]);
    }
    lemma_position_is(after, id, k);
    assert(bindings_of(after)[k] == r.binding);
    lemma_snapshot_has(after, id);
}

/// After a binding is unregistered, the snapshot lists no binding with its
/// identity, and no action is registered for it.
pub proof fn lemma_unregistered_is_not_listed(rs: Seq<RegistrationView>, id: BindingIdentity)
    requires
        distinct_identities(rs),
    ensures
        !snapshot_has(without_binding(rs, id), id),
        action_of(without_binding(rs, id), id) is None,
        forall|b: KeyBindingView|
            b.identity() == id ==> !bindings_of(without_binding(rs, id)).contains(b),
{
    let after = without_binding(rs, id);
    lemma_position(rs, id);
    assert forall|j: int| 0 <= j < after.len() implies (#[trigger] after[j]).binding.identity()
        != id by {
        match position(rs, id) {
            Some(k) => {
                let a = if j < k {
                    j
                } else {
                    j + 1
                };
                assert(after[j] == rs[a]);
                assert(rs[a].binding.identity() != rs[k].binding.identity());
            },
            None => {},
        }
    }
    lemma_position(after, id);
    lemma_snapshot_has(after, id);
    assert forall|b: KeyBindingView| b.identity() == id implies !bindings_of(after).contains(
        b,
    ) by {
        if bindings_of(after).contains(b) {
            let i = choose|i: int| 0 <= i < bindings_of(after).len() && bindings_of(after)[i] == b;
            assert(after[i].binding.identity() == id);
        }
    }
}

/// Registering a binding whose identity is new and unregistering it again
/// leaves the registry as it was.
pub proof fn lemma_register_then_unregister(rs: Seq<RegistrationView>, r: RegistrationView)
    requires
        position(rs, r.binding.identity()) is None,
    ensures
        without_binding(with_registration(rs, r), r.binding.identity()) == rs,
{
    let id = r.binding.identity();
    let after = rs.push(r);
    lemma_position(rs, id);
    assert forall|j: int| 0 <= j < rs.len() implies (#[trigger] after[j]).binding.identity()
        != id by {
        assert(after[j] == rs[j]);
    }
    lemma_position_is(after, id, rs.len() as int);
    assert(after.remove(rs.len() as int) =~= rs);
}

/// Registering and unregistering touch one identity: the action of every
/// other identity stays what it was.
pub proof fn lemma_other_bindings_keep_their_action(
    rs: Seq<RegistrationView>,
    r: RegistrationView,
    other: BindingIdentity,
)
    requires
        other != r.binding.identity(),
    ensures
        action_of(with_registration(rs, r), other) == action_of(rs, other),
        action_of(without_binding(rs, r.binding.identity()), other) == action_of(rs, other),
{
    let id = r.binding.identity();
    lemma_position(rs, id);
    lemma_position(rs, other);
    let added = with_registration(rs, r);
    let removed = without_binding(rs, id);
    match position(rs, other) {
        Some(p) => {
            assert(added[p] == rs[p]);
            assert forall|j: int| 0 <= j < p implies (#[trigger] added[j]).binding.identity()
                != other by {
                if position(rs, id) != Some(j) {
                    assert(added[j] == rs[j]);
                }
            }
            lemma_position_is(added, other, p);
            match position(rs, id) {
                Some(k) => {
                    let q = if p < k {
                        p
                    } else {
                        p - 1
                    };
                    assert(removed[q] == rs[p]);
                    assert forall|j: int| 0 <= j < q implies (
                    #[trigger] removed[j]).binding.identity() != other by {
                        let a = if j < k {
                            j
                        } else {
                            j + 1
                        };
                        assert(removed[j] == rs[a]);
                    }
                    lemma_position_is(removed, other, q);
                },
                None => {},
            }
        },
        None => {
            lemma_position(added, other);
            if position(added, other) is Some {
                let p = position(added, other).unwrap();
                if p < rs.len() && position(rs, id) != Some(p) {
                    assert(added[p] == rs[p]);
                }
            }
            lemma_position(removed, other);
            if position(removed, other) is Some {
                let q = position(removed, other).unwrap();
                match position(rs, id) {
                    Some(k) => {
                        let a = if q < k {
                            q
                        } else {
                            q + 1
                        };
                        assert(removed[q] == rs[a]);
                    },
                    None => {},
                }
            }
        },
    }
}

} // verus!
