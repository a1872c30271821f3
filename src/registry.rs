//! Registry from logical object index to the physics engine's rigid-body
//! handle: the one place that says which simulated body is which object.
use vstd::prelude::*;
use rapier3d::dynamics::RigidBodyHandle;
use crate::scene::{lemma_scene_order, scene_layout, scene_plan, pins_in_rows, BodyKind, BALL_INDEX};

verus! {

/// rapier3d's handle of a body in its `RigidBodySet`; carried, never looked into.
#[verifier::external_type_specification]
#[verifier::external_body]
pub struct ExRigidBodyHandle(RigidBodyHandle);

/// One registered body: what it is and the engine's handle for it.
#[derive(Clone, Copy)]
pub struct PhysicsObj {
    pub kind: BodyKind,
    pub handle: RigidBodyHandle,
}

/// Bodies by logical index, in registration order.
pub struct RigidBodyRegistry {
    entries: Vec<PhysicsObj>,
}

impl View for RigidBodyRegistry {
    type V = Seq<PhysicsObj>;

    closed spec fn view(&self) -> Seq<PhysicsObj> {
        self.entries@
    }
}

/// The kinds of the entries, by logical index.
pub open spec fn kinds_of(entries: Seq<PhysicsObj>) -> Seq<BodyKind> {
    entries.map_values(|e: PhysicsObj| e.kind)
}

/// In a registry that holds the scene of any number of pin rows, logical index
/// 0 is the ball and the last registered index is the floor.
pub proof fn lemma_registry_ends(entries: Seq<PhysicsObj>, rows: nat)
    requires
        kinds_of(entries) == scene_layout(rows),
    ensures
        entries.len() == pins_in_rows(rows) + 2,
        entries[BALL_INDEX as int].kind == BodyKind::Ball,
        entries.last().kind == BodyKind::Floor,
{
    lemma_scene_order(rows);
    assert(kinds_of(entries)[BALL_INDEX as int] == entries[BALL_INDEX as int].kind);
    assert(kinds_of(entries)[entries.len() - 1] == entries.last().kind);
}

impl RigidBodyRegistry {
    pub fn new() -> (r: Self)
        ensures
            r@ == Seq::<PhysicsObj>::empty(),
    {
        RigidBodyRegistry { entries: Vec::new() }
    }

    pub fn len(&self) -> (r: usize)
        ensures
            r == self@.len(),
    {
        self.entries.len()
    }

    /// Registers a body and returns its logical index: the next free one.
    pub fn register(&mut self, kind: BodyKind, handle: RigidBodyHandle) -> (index: usize)
        requires
            old(self)@.len() < usize::MAX,
        ensures
            index == old(self)@.len(),
            final(self)@ == old(self)@.push(PhysicsObj { kind, handle }),
    {
        let index = self.entries.len();
        self.entries.push(PhysicsObj { kind, handle });
        index
    }

    /// The handle of the body at a registered logical index.
    pub fn handle_of(&self, index: usize) -> (r: RigidBodyHandle)
        requires
            index < self@.len(),
        ensures
            r == self@[index as int].handle,
    {
        self.entries[index].handle
    }

    /// What the body at a registered logical index is.
    pub fn kind_of(&self, index: usize) -> (r: BodyKind)
        requires
            index < self@.len(),
        ensures
            r == self@[index as int].kind,
    {
        self.entries[index].kind
    }

    /// Whether the registry holds exactly the bodies of the scene with `rows`
    /// pin rows, each at its logical index.
    pub fn matches_scene(&self, rows: usize) -> (r: bool)
        requires
            pins_in_rows(rows as nat) + 2 <= usize::MAX,
        ensures
            r == (kinds_of(self@) == scene_layout(rows as nat)),
    {
        let plan = scene_plan(rows);
        if plan.len() != self.entries.len() {
            proof {
                assert(kinds_of(self@).len() != scene_layout(rows as nat).len());
            }
            return false;
        }
        let mut i: usize = 0;
        while i < plan.len()
            invariant
                plan@ == scene_layout(rows as nat),
                plan.len() == self@.len(),
                i <= plan.len(),
                forall|j: int| 0 <= j < i ==> kinds_of(self@)[j] == plan@[j],
            decreases plan.len() - i,
        {
            if plan[i] != self.entries[i].kind {
                proof {
                    assert(kinds_of(self@)[i as int] != plan@[i as int]);
                }
                return false;
            }
            i = i + 1;
        }
        proof {
            assert(kinds_of(self@) =~= plan@);
        }
        true
    }

    /// Whether the objects whose body kinds are `kinds`, by render index, each
    /// stand at the logical index of their body: object `i` is body `i`.
    pub fn matches_objects(&self, kinds: &Vec<BodyKind>) -> (r: bool)
        ensures
            r == (kinds@.len() <= self@.len() && forall|i: int|
                0 <= i < kinds@.len() ==> #[trigger] kinds@[i] == self@[i].kind),
    {
        if kinds.len() > self.entries.len() {
            return false;
        }
        let mut i: usize = 0;
        while i < kinds.len()
            invariant
                kinds@.len() <= self@.len(),
                i <= kinds@.len(),
                forall|j: int| 0 <= j < i ==> #[trigger] kinds@[j] == self@[j].kind,
            decreases kinds@.len() - i,
        {
            if kinds[i] != self.entries[i].kind {
                return false;
            }
            i = i + 1;
        }
        true
    }

    /// Builds the registry of the scene with `rows` pin rows from the handles of
    /// its bodies, given in registration order; `None` where their number is not
    /// that of the scene's bodies.
    pub fn from_handles(rows: usize, handles: &Vec<RigidBodyHandle>) -> (r: Option<Self>)
        requires
            pins_in_rows(rows as nat) + 2 <= usize::MAX,
        ensures
            r is None <==> handles@.len() != scene_layout(rows as nat).len(),
            r matches Some(reg) ==> {
                &&& kinds_of(reg@) == scene_layout(rows as nat)
                &&& forall|i: int| 0 <= i < handles@.len() ==> #[trigger] reg@[i].handle == handles@[i]
            },
    {
        let plan = scene_plan(rows);
        if plan.len() != handles.len() {
            return None;
        }
        let mut reg = Self::new();
        let mut i: usize = 0;
        while i < plan.len()
            invariant
                plan@ == scene_layout(rows as nat),
                plan.len() == handles.len(),
                i <= plan.len(),
                reg@.len() == i,
                forall|j: int| 0 <= j < i ==> #[trigger] reg@[j] == (PhysicsObj { kind: plan@[j], handle: handles@[j] }),
            decreases plan.len() - i,
        {
            reg.register(plan[i], handles[i]);
            i = i + 1;
        }
        proof {
            assert(kinds_of(reg@) =~= plan@);
        }
        Some(reg)
    }
}

} // verus!
