//! Temporal.Instant: the handle, its heap record, and the abstract
//! operations of the built-in.
use vstd::prelude::*;

use crate::duration::{spec_to_temporal_duration, to_temporal_duration};
use crate::gc::{CompactionLists, HeapRootData, HeapRootRef, WorkQueues};
use crate::heap::{
    completes_as, find_property, Agent, ExceptionType, Function, Heap, JsError, JsResult, ObjectHeapData, OrdinaryObject,
    PropertyKey, PropertyKeyView, Realm,
};
use crate::options::{
    get_difference_settings, get_options_object, key_largest_unit, key_rounding_increment, key_rounding_mode,
    key_smallest_unit, negate_rounding_mode, negate_rounding_mode_exec, resolve_difference_settings, spec_difference_settings, unit_number, unit_rank, DifferenceSettings,
    RoundingMode, TemporalUnit, UnitGroup,
};
use crate::temporal::{
    add_duration, balanced_time_duration, blank_duration, negated_duration, round_to_increment, unit_nanoseconds, valid_time_difference_settings, difference_since, difference_until, instant_add_duration, instant_from_utf8,
    duration_time_nanoseconds, exact_time_duration, has_date_part, signs_agree, signs_agree_exec, time_part_in_range,
    time_part_in_range_exec, instant_subtract_duration, instant_until, is_valid_epoch_nanoseconds, parse_instant, subtract_duration,
    DurationRecord,
};
use crate::value::{object_of, Object, Value, ValueView};

verus! {

/// A handle to a Temporal.Instant in the engine heap.
#[derive(Clone, Copy, Debug, PartialEq, Eq, Structural)]
pub struct TemporalInstant(pub u32);

/// The heap record of a Temporal.Instant: its backing object, if one was
/// made, and its [[EpochNanoseconds]].
#[derive(Clone, Copy, Debug, PartialEq, Eq, Structural)]
pub struct InstantHeapData {
    pub object_index: Option<OrdinaryObject>,
    pub instant: i128,
}

pub open spec fn key_prototype() -> Seq<u8> {
    seq!['p' as u8, 'r' as u8, 'o' as u8, 't' as u8, 'o' as u8, 't' as u8, 'y' as u8, 'p' as u8, 'e' as u8]
}

/// The key "prototype".
pub fn prototype_key() -> (k: PropertyKey)
    ensures
        k@ == PropertyKeyView::String(key_prototype()),
{
    PropertyKey::String(vec!['p' as u8, 'r' as u8, 'o' as u8, 't' as u8, 'o' as u8, 't' as u8, 'y' as u8, 'p' as u8, 'e' as u8])
}

/// `new` has the realms and the running realm of `old`.
pub open spec fn same_realms(old: &Agent, new: &Agent) -> bool {
    &&& new.realms == old.realms
    &&& new.current_realm == old.current_realm
}

impl TemporalInstant {
    /// The heap index this handle refers to.
    pub open spec fn index(self) -> int {
        self.0 as int
    }

    /// The handle of the first Temporal.Instant of the heap.
    pub fn _def() -> (r: Self)
        ensures
            r.index() == 0,
    {
        TemporalInstant(0)
    }

    /// The heap index this handle refers to.
    pub fn get_index(self) -> (r: usize)
        ensures
            r as int == self.index(),
    {
        self.0 as usize
    }

    /// The [[EpochNanoseconds]] of the instant.
    pub fn inner_instant(self, agent: &Agent) -> (r: i128)
        requires
            agent.wf(),
            agent.heap.valid_instant(self),
        ensures
            r == agent.heap.instants@[self.index()].instant,
            is_valid_epoch_nanoseconds(r as int),
    {
        agent.heap.instants[self.0 as usize].instant
    }

    /// Sets the [[EpochNanoseconds]] of the instant; nothing else changes.
    pub fn set_epoch_nanoseconds(self, agent: &mut Agent, epoch_nanoseconds: i128)
        requires
            old(agent).wf(),
            old(agent).heap.valid_instant(self),
            is_valid_epoch_nanoseconds(epoch_nanoseconds as int),
        ensures
            final(agent).wf(),
            final(agent).heap.instants@ == old(agent).heap.instants@.update(
                self.index(),
                InstantHeapData {
                    object_index: old(agent).heap.instants@[self.index()].object_index,
                    instant: epoch_nanoseconds,
                },
            ),
            final(agent).heap.objects == old(agent).heap.objects,
            final(agent).heap.zoned_date_times == old(agent).heap.zoned_date_times,
            final(agent).heap.alloc_counter == old(agent).heap.alloc_counter,
            same_realms(old(agent), final(agent)),
    {
        let i = self.0 as usize;
        let object_index = agent.heap.instants[i].object_index;
        let ghost before = agent.heap;
        agent.heap.instants.set(i, InstantHeapData { object_index, instant: epoch_nanoseconds });
        proof {
            assert forall|j: int| 0 <= j < agent.heap.instants.len() implies agent.heap.valid_backing(
                #[trigger] agent.heap.instants@[j].object_index,
            ) by {
                assert(before.valid_backing(before.instants@[j].object_index));
            }
            assert forall|j: int| 0 <= j < agent.heap.instants.len() implies is_valid_epoch_nanoseconds(
                #[trigger] agent.heap.instants@[j].instant as int,
            ) by {
                assert(is_valid_epoch_nanoseconds(before.instants@[j].instant as int));
            }
            assert forall|r: int| 0 <= r < agent.realms.len() implies (#[trigger] agent.realms@[r]).intrinsics.valid(
                &agent.heap,
            ) by {
                assert(agent.realms@[r].intrinsics.valid(&before));
            }
            assert forall|r: int| 0 <= r < agent.realms.len() implies agent.heap.instant_constructor_linked((#[trigger] agent.realms@[r]).intrinsics) by {
                assert(old(agent).heap.instant_constructor_linked(old(agent).realms@[r].intrinsics));
            }
        }
    }

    /// The value that is this instant.
    pub fn into_value(self) -> (r: Value)
        ensures
            r@ == ValueView::Instant(self),
    {
        Value::Instant(self)
    }

    /// The object that is this instant.
    pub fn into_object(self) -> (r: Object)
        ensures
            r == Object::Instant(self),
    {
        Object::Instant(self)
    }

    /// The instant that a value is, or `Err` for any other value.
    pub fn try_from_value(value: &Value) -> (r: Result<Self, ()>)
        ensures
            match value@ {
                ValueView::Instant(i) => r == Ok::<Self, ()>(i),
                _ => r is Err,
            },
    {
        match value {
            Value::Instant(idx) => Ok(*idx),
            _ => Err(()),
        }
    }

    /// The instant that an object is, or `Err` for any other object.
    pub fn try_from_object(object: Object) -> (r: Result<Self, ()>)
        ensures
            match object {
                Object::Instant(i) => r == Ok::<Self, ()>(i),
                _ => r is Err,
            },
    {
        match object {
            Object::Instant(idx) => Ok(idx),
            _ => Err(()),
        }
    }

    /// The backing object of the instant, if one was made.
    pub fn get_backing_object(self, agent: &Agent) -> (r: Option<OrdinaryObject>)
        requires
            agent.wf(),
            agent.heap.valid_instant(self),
        ensures
            r == agent.heap.instants@[self.index()].object_index,
    {
        agent.heap.instants[self.0 as usize].object_index
    }

    /// Gives the instant its backing object; an instant has at most one.
    pub fn set_backing_object(self, agent: &mut Agent, backing_object: OrdinaryObject)
        requires
            old(agent).wf(),
            old(agent).heap.valid_instant(self),
            old(agent).heap.valid_object(backing_object),
            old(agent).heap.instants@[self.index()].object_index is None,
        ensures
            final(agent).wf(),
            final(agent).heap.instants@ == old(agent).heap.instants@.update(
                self.index(),
                InstantHeapData {
                    object_index: Some(backing_object),
                    instant: old(agent).heap.instants@[self.index()].instant,
                },
            ),
            final(agent).heap.objects == old(agent).heap.objects,
            final(agent).heap.zoned_date_times == old(agent).heap.zoned_date_times,
            final(agent).heap.alloc_counter == old(agent).heap.alloc_counter,
            same_realms(old(agent), final(agent)),
    {
        let i = self.0 as usize;
        let instant = agent.heap.instants[i].instant;
        let ghost before = agent.heap;
        agent.heap.instants.set(i, InstantHeapData { object_index: Some(backing_object), instant });
        proof {
            assert forall|j: int| 0 <= j < agent.heap.instants.len() implies agent.heap.valid_backing(
                #[trigger] agent.heap.instants@[j].object_index,
            ) by {
                assert(before.valid_backing(before.instants@[j].object_index));
            }
            assert forall|j: int| 0 <= j < agent.heap.instants.len() implies is_valid_epoch_nanoseconds(
                #[trigger] agent.heap.instants@[j].instant as int,
            ) by {
                assert(is_valid_epoch_nanoseconds(before.instants@[j].instant as int));
            }
            assert forall|r: int| 0 <= r < agent.realms.len() implies (#[trigger] agent.realms@[r]).intrinsics.valid(
                &agent.heap,
            ) by {
                assert(agent.realms@[r].intrinsics.valid(&before));
            }
            assert forall|r: int| 0 <= r < agent.realms.len() implies agent.heap.instant_constructor_linked((#[trigger] agent.realms@[r]).intrinsics) by {
                assert(old(agent).heap.instant_constructor_linked(old(agent).realms@[r].intrinsics));
            }
        }
    }

    /// The root-list entry of the instant: it is held by its heap data.
    #[verifier::allow_in_spec]
    pub fn to_root_repr(value: Self) -> Result<HeapRootRef, HeapRootData>
        returns
            Err::<HeapRootRef, HeapRootData>(HeapRootData::Instant(value)),
    {
        Err(HeapRootData::Instant(value))
    }

    /// A root reference is never an instant held inline.
    pub fn from_root_repr(value: &HeapRootRef) -> (r: Result<Self, HeapRootRef>)
        ensures
            r == Err::<Self, HeapRootRef>(*value),
    {
        Err(*value)
    }

    /// The root representation of a root reference is the reference.
    pub fn from_heap_ref(heap_ref: HeapRootRef) -> (r: HeapRootRef)
        ensures
            r == heap_ref,
    {
        heap_ref
    }

    /// The instant that a root-list entry holds, if it holds one.
    #[verifier::allow_in_spec]
    pub fn from_heap_data(heap_data: HeapRootData) -> Option<Self>
        returns
            (match heap_data {
                HeapRootData::Instant(i) => Some(i),
                _ => None,
            }),
    {
        match heap_data {
            HeapRootData::Instant(object) => Some(object),
            _ => None,
        }
    }

    /// Marks the instant as reached.
    pub fn mark_values(&self, queues: &mut WorkQueues)
        ensures
            final(queues).instants@ == old(queues).instants@.push(*self),
            final(queues).objects == old(queues).objects,
            final(queues).zoned_date_times == old(queues).zoned_date_times,
    {
        queues.instants.push(*self);
    }

    /// Moves the handle to the instant's compacted index.
    pub fn sweep_values(&mut self, compactions: &CompactionLists)
        requires
            (old(self).0 as int) < compactions.instants.marks.len(),
        ensures
            final(self).0 as int == compactions.instants.shifted(old(self).0 as int),
    {
        compactions.instants.shift_index(&mut self.0);
    }

    /// The handle at the instant's compacted index, or `None` where the
    /// instant is dropped.
    pub fn sweep_weak_reference(self, compactions: &CompactionLists) -> (r: Option<Self>)
        requires
            (self.0 as int) < compactions.instants.marks.len(),
        ensures
            match r {
                Some(i) => compactions.instants.marks@[self.index()] && i.index() == compactions.instants.shifted(
                    self.index(),
                ),
                None => !compactions.instants.marks@[self.index()],
            },
    {
        match compactions.instants.shift_weak_index(self.0) {
            Some(i) => Some(TemporalInstant(i)),
            None => None,
        }
    }
}

impl Agent {
    /// The heap record of an instant.
    pub fn instant_data(&self, index: TemporalInstant) -> (r: &InstantHeapData)
        requires
            self.heap.valid_instant(index),
        ensures
            *r == self.heap.instants@[index.index()],
    {
        &self.heap.instants[index.0 as usize]
    }
}

impl Heap {
    /// Adds the record of a Temporal.Instant to the heap, counts its size,
    /// and returns its handle.
    pub fn create_instant(&mut self, data: InstantHeapData) -> (r: TemporalInstant)
        requires
            old(self).wf(),
            old(self).valid_backing(data.object_index),
            is_valid_epoch_nanoseconds(data.instant as int),
            old(self).instants.len() + 1 < u32::MAX,
            old(self).alloc_counter + vstd::layout::size_of::<InstantHeapData>() <= usize::MAX,
        ensures
            final(self).wf(),
            old(self).grows_to(&*final(self)),
            r.index() == old(self).instants.len(),
            final(self).instants@ == old(self).instants@.push(data),
            final(self).objects == old(self).objects,
            final(self).zoned_date_times == old(self).zoned_date_times,
            final(self).alloc_counter == old(self).alloc_counter + vstd::layout::size_of::<InstantHeapData>(),
    {
        let ghost before = *self;
        self.instants.push(data);
        self.alloc_counter = self.alloc_counter + core::mem::size_of::<InstantHeapData>();
        proof {
            assert forall|i: int| 0 <= i < self.objects.len() implies match #[trigger] self.objects@[i].prototype {
                Some(p) => self.valid_object_ref(p),
                None => true,
            } by {
                assert(match before.objects@[i].prototype {
                    Some(p) => before.valid_object_ref(p),
                    None => true,
                });
            }
            assert forall|i: int, j: int|
                0 <= i < self.objects.len() && 0 <= j < self.objects@[i].properties.len()
                implies self.valid_value(#[trigger] self.objects@[i].properties@[j].value@) by {
                assert(before.valid_value(before.objects@[i].properties@[j].value@));
            }
            assert forall|i: int| 0 <= i < self.instants.len() implies self.valid_backing(
                #[trigger] self.instants@[i].object_index,
            ) by {
                if i < before.instants.len() {
                    assert(self.instants@[i] == before.instants@[i]);
                }
            }
            assert forall|i: int| 0 <= i < self.instants.len() implies is_valid_epoch_nanoseconds(
                #[trigger] self.instants@[i].instant as int,
            ) by {
                if i < before.instants.len() {
                    assert(self.instants@[i] == before.instants@[i]);
                }
            }
        }
        TemporalInstant((self.instants.len() - 1) as u32)
    }
}

/// `f` is %Temporal.Instant% or %Temporal.ZonedDateTime% of the realm `r`.
pub open spec fn is_intrinsic_constructor_of(agent: &Agent, f: Function, r: int) -> bool {
    ||| agent.realms@[r].intrinsics.temporal_instant == f
    ||| agent.realms@[r].intrinsics.temporal_zoned_date_time == f
}

/// GetFunctionRealm(f): the realm of which `f` is an intrinsic constructor.
/// The heap keeps no [[Realm]] for other function objects; they are taken
/// to belong to the running realm.
pub open spec fn function_realm(agent: &Agent, f: Function) -> Realm {
    if exists|r: int| 0 <= r < agent.realms.len() && #[trigger] is_intrinsic_constructor_of(agent, f, r) {
        Realm((choose|r: int| 0 <= r < agent.realms.len() && #[trigger] is_intrinsic_constructor_of(agent, f, r)) as u32)
    } else {
        agent.current_realm
    }
}

/// No function is an intrinsic constructor of two realms.
proof fn lemma_intrinsic_constructor_unique(agent: &Agent, f: Function, r1: int, r2: int)
    requires
        agent.wf(),
        0 <= r1 < agent.realms.len(),
        0 <= r2 < agent.realms.len(),
        is_intrinsic_constructor_of(agent, f, r1),
        is_intrinsic_constructor_of(agent, f, r2),
    ensures
        r1 == r2,
{
    let k1: int = if agent.realms@[r1].intrinsics.temporal_instant == f { 2 } else { 4 };
    let k2: int = if agent.realms@[r2].intrinsics.temporal_instant == f { 2 } else { 4 };
    assert(agent.realms@[r1].intrinsics.object_at(k1) == f.0);
    assert(agent.realms@[r2].intrinsics.object_at(k2) == f.0);
}

/// GetFunctionRealm(f), found by a walk over the realms.
fn get_function_realm(agent: &Agent, f: Function) -> (r: Realm)
    requires
        agent.wf(),
    ensures
        r == function_realm(agent, f),
        agent.valid_realm(r),
{
    let mut i: usize = 0;
    while i < agent.realms.len()
        invariant
            agent.wf(),
            i <= agent.realms.len(),
            forall|j: int| 0 <= j < i ==> !#[trigger] is_intrinsic_constructor_of(agent, f, j),
        decreases agent.realms.len() - i,
    {
        let intrinsics = agent.realms[i].intrinsics;
        if intrinsics.temporal_instant == f || intrinsics.temporal_zoned_date_time == f {
            proof {
                assert(is_intrinsic_constructor_of(agent, f, i as int));
                let c = choose|r: int| 0 <= r < agent.realms.len() && #[trigger] is_intrinsic_constructor_of(agent, f, r);
                lemma_intrinsic_constructor_unique(agent, f, i as int, c);
            }
            return Realm(i as u32);
        }
        i += 1;
    }
    agent.current_realm
}

/// GetPrototypeFromConstructor(constructor, %Temporal.Instant.prototype%):
/// the "prototype" property of the constructor where it is an object, else
/// %Temporal.Instant.prototype% of the constructor's realm.
pub open spec fn instant_prototype_from_constructor(agent: &Agent, constructor: Function) -> Object {
    match object_of(agent.spec_get(Object::Object(constructor.0), PropertyKeyView::String(key_prototype()))) {
        Some(p) => p,
        None => Object::Object(agent.intrinsics_of(function_realm(agent, constructor)).temporal_instant_prototype),
    }
}

/// `new` is `old` with one more Temporal.Instant, `h`, made by
/// `constructor` with epoch nanoseconds `ns`: where its prototype is not
/// the default one, a backing object with that prototype is made for it.
pub open spec fn creates_instant(old: &Agent, new: &Agent, ns: i128, constructor: Function, h: TemporalInstant) -> bool {
    let proto = instant_prototype_from_constructor(old, constructor);
    let default_proto = Object::Object(old.current_intrinsics().temporal_instant_prototype);
    let n = old.heap.objects.len();
    &&& new.wf()
    &&& old.heap.grows_to(&new.heap)
    &&& same_realms(old, new)
    &&& h.index() == old.heap.instants.len()
    &&& new.heap.zoned_date_times == old.heap.zoned_date_times
    &&& new.heap.alloc_counter == old.heap.alloc_counter + vstd::layout::size_of::<InstantHeapData>()
    &&& forall|i: int| 0 <= i < n ==> new.heap.objects@[i] == old.heap.objects@[i]
    &&& if proto == default_proto {
        &&& new.heap.objects@.len() == n
        &&& new.heap.instants@ == old.heap.instants@.push(InstantHeapData { object_index: None, instant: ns })
    } else {
        &&& new.heap.objects@.len() == n + 1
        &&& new.heap.objects@[n as int].prototype == Some(proto)
        &&& new.heap.objects@[n as int].properties@.len() == 0
        &&& new.heap.instants@ == old.heap.instants@.push(
            InstantHeapData { object_index: Some(OrdinaryObject(n as u32)), instant: ns },
        )
    }
}

/// The heap has room for one more instant and its backing object.
pub open spec fn room_for_instant(agent: &Agent) -> bool {
    &&& agent.heap.objects.len() + 2 < u32::MAX
    &&& agent.heap.instants.len() + 1 < u32::MAX
    &&& agent.heap.alloc_counter + vstd::layout::size_of::<InstantHeapData>() <= usize::MAX
}

/// OrdinaryCreateFromConstructor(constructor, "%Temporal.Instant.prototype%"):
/// a new Temporal.Instant whose prototype comes from `constructor`.
fn ordinary_create_instant_from_constructor(agent: &mut Agent, constructor: Function) -> (r: TemporalInstant)
    requires
        old(agent).wf(),
        old(agent).heap.valid_object(constructor.0),
        room_for_instant(old(agent)),
    ensures
        creates_instant(old(agent), final(agent), 0, constructor, r),
{
    let ghost before = *agent;
    let key = prototype_key();
    let prototype_value = agent.get(Object::Object(constructor.0), &key);
    let default_proto = agent.realms[agent.current_realm.0 as usize].intrinsics.temporal_instant_prototype;
    let proto = match prototype_value.to_object() {
        Some(p) => p,
        None => {
            let realm = get_function_realm(agent, constructor);
            Object::Object(agent.realms[realm.0 as usize].intrinsics.temporal_instant_prototype)
        },
    };
    let object_index = if proto == Object::Object(default_proto) {
        None
    } else {
        let backing = agent.heap.create_object(ObjectHeapData { prototype: Some(proto), properties: Vec::new() });
        proof {
            before.lemma_heap_grows(&agent.heap);
        }
        Some(backing)
    };
    let ghost middle = *agent;
    let r = agent.heap.create_instant(InstantHeapData { object_index, instant: 0 });
    proof {
        assert forall|i: int| 0 <= i < middle.heap.objects.len() implies agent.heap.objects@[i] == middle.heap.objects@[i] by {}
        middle.lemma_heap_grows(&agent.heap);
    }
    r
}

/// [8.5.2 CreateTemporalInstant ( epochNanoseconds [ , newTarget ] )](https://tc39.es/proposal-temporal/#sec-temporal-createtemporalinstant)
/// Creates a Temporal.Instant with the given epoch nanoseconds, whose
/// prototype comes from `new_target` (by default %Temporal.Instant%).
pub fn create_temporal_instant(agent: &mut Agent, epoch_nanoseconds: i128, new_target: Option<Function>) -> (r: JsResult<TemporalInstant>)
    requires
        old(agent).wf(),
        is_valid_epoch_nanoseconds(epoch_nanoseconds as int),
        new_target matches Some(f) ==> old(agent).heap.valid_object(f.0),
        room_for_instant(old(agent)),
    ensures
        r matches Ok(h) && creates_instant(
            old(agent),
            final(agent),
            epoch_nanoseconds,
            match new_target {
                Some(f) => f,
                None => old(agent).current_intrinsics().temporal_instant,
            },
            h,
        ),
{
    // 1. Assert: IsValidEpochNanoseconds(epochNanoseconds) is true.
    // 2. If newTarget is not present, set newTarget to %Temporal.Instant%.
    let new_target = match new_target {
        Some(f) => f,
        None => agent.realms[agent.current_realm.0 as usize].intrinsics.temporal_instant,
    };
    // 3. Let object be ? OrdinaryCreateFromConstructor(newTarget, "%Temporal.Instant.prototype%",
    //    « [[InitializedTemporalInstant]], [[EpochNanoseconds]] »).
    let ghost before = *agent;
    let object = ordinary_create_instant_from_constructor(agent, new_target);
    let ghost middle = *agent;
    // 4. Set object.[[EpochNanoseconds]] to epochNanoseconds.
    object.set_epoch_nanoseconds(agent, epoch_nanoseconds);
    proof {
        let data = middle.heap.instants@[object.index()];
        assert(agent.heap.instants@ =~= before.heap.instants@.push(
            InstantHeapData { object_index: data.object_index, instant: epoch_nanoseconds },
        ));
    }
    // 5. Return object.
    Ok(object)
}

/// ToTemporalInstant(item): an instant or a zoned date-time gives its epoch
/// nanoseconds; an instant string gives what `temporal_rs` parses from it,
/// or a RangeError; any other primitive is a TypeError, and so is any other
/// object, whose ToPrimitive throws on the data-only objects of this heap.
pub open spec fn spec_to_temporal_instant(agent: &Agent, item: ValueView) -> Result<i128, ExceptionType> {
    match item {
        ValueView::Instant(i) => Ok(agent.heap.instants@[i.index()].instant),
        ValueView::ZonedDateTime(z) => Ok(agent.heap.zoned_date_times@[z.index()].epoch_nanoseconds),
        ValueView::String(s) => match instant_from_utf8(s) {
            Some(ns) => Ok(ns),
            None => Err(ExceptionType::RangeError),
        },
        _ => Err(ExceptionType::TypeError),
    }
}

/// [8.5.3 ToTemporalInstant ( item )](https://tc39.es/proposal-temporal/#sec-temporal-totemporalinstant)
/// Converts `item` to the epoch nanoseconds of a Temporal.Instant if
/// possible, and throws otherwise.
pub fn to_temporal_instant(agent: &Agent, item: &Value) -> (r: JsResult<i128>)
    requires
        agent.wf(),
        agent.heap.valid_value(item@),
    ensures
        completes_as(r, spec_to_temporal_instant(agent, item@)),
        !(item@ is ZonedDateTime) ==> (r matches Ok(ns) ==> is_valid_epoch_nanoseconds(ns as int)),
{
    // 1. If item is an Object, then
    //    a. If item has an [[InitializedTemporalInstant]] or [[InitializedTemporalZonedDateTime]]
    //       internal slot, then
    //       i. Return ! CreateTemporalInstant(item.[[EpochNanoseconds]]).
    //    b. NOTE: This use of ToPrimitive allows Instant-like objects to be converted.
    //    c. Set item to ? ToPrimitive(item, string).
    match item {
        Value::Instant(instant) => {
            return Ok(instant.inner_instant(agent));
        },
        Value::ZonedDateTime(zoned) => {
            return Ok(agent.heap.zoned_date_times[zoned.0 as usize].epoch_nanoseconds);
        },
        Value::Object(_) => {
            return Err(JsError { kind: ExceptionType::TypeError, message: "Cannot convert object to primitive value" });
        },
        _ => {},
    }
    // 2. If item is not a String, throw a TypeError exception.
    match item {
        Value::String(s) => {
            // 3. Let parsed be ? ParseISODateTime(item, « TemporalInstantString »).
            // 4-10. Balance the parsed date and time with its offset and check the range.
            // 11. Return ! CreateTemporalInstant(epochNanoseconds).
            match parse_instant(s.as_slice()) {
                Some(ns) => Ok(ns),
                None => Err(JsError { kind: ExceptionType::RangeError, message: "invalid instant string" }),
            }
        },
        _ => Err(JsError { kind: ExceptionType::TypeError, message: "item is not a String" }),
    }
}

/// [RequireInternalSlot ( O, [[InitializedTemporalInstant]] )](https://tc39.es/ecma262/#sec-requireinternalslot)
/// The instant that `value` is, or a TypeError.
pub fn require_internal_slot_temporal_instant(agent: &Agent, value: &Value) -> (r: JsResult<TemporalInstant>)
    ensures
        match value@ {
            ValueView::Instant(i) => r matches Ok(h) && h == i,
            _ => r matches Err(e) && e.kind == ExceptionType::TypeError && e.message@ == "Object is not a Temporal Instant"@,
        },
{
    match value {
        Value::Instant(instant) => Ok(*instant),
        _ => Err(JsError { kind: ExceptionType::TypeError, message: "Object is not a Temporal Instant" }),
    }
}

/// The [[EpochNanoseconds]] of `instant` plus, or minus, `duration`, as
/// `temporal_rs` computes it; nothing where the fields of the duration
/// agree in sign and its time part lies beyond what a time duration holds
/// (so far beyond the range of instants that no sum is valid).
pub open spec fn instant_sum(ns: i128, duration: DurationRecord, is_add: bool) -> Option<i128> {
    if signs_agree(duration) && !time_part_in_range(duration) {
        None
    } else if is_add {
        instant_add_duration(ns, duration)
    } else {
        instant_subtract_duration(ns, duration)
    }
}

/// The epoch nanoseconds `e` moved by the time part of `d`, forward where
/// `is_add` and back otherwise, or `None` where that leaves the valid range.
pub open spec fn shifted_instant(e: int, d: DurationRecord, is_add: bool) -> Option<int> {
    let x = if is_add {
        e + duration_time_nanoseconds(d)
    } else {
        e - duration_time_nanoseconds(d)
    };
    if is_valid_epoch_nanoseconds(x) {
        Some(x)
    } else {
        None
    }
}

/// What adding the duration record `d` to `instant` (subtracting it where
/// `is_add` is false) does, from `old` to `new` with the completion `r`:
/// where `temporal_rs` gives a sum, a new Temporal.Instant with it, else a
/// RangeError and no change. A duration with a date part is refused; the
/// sum of a time duration is the instant moved by its time part, and for an
/// exactly held time duration a RangeError comes just where that leaves the
/// valid range.
pub open spec fn adds_duration(
    old: &Agent,
    new: &Agent,
    instant: TemporalInstant,
    d: DurationRecord,
    is_add: bool,
    r: JsResult<Value>,
) -> bool {
    let e = old.heap.instants@[instant.index()].instant;
    &&& match instant_sum(e, d, is_add) {
        None => r matches Err(x) && x.kind == ExceptionType::RangeError && *new == *old,
        Some(ns) => r matches Ok(v) && v@ matches ValueView::Instant(h) && creates_instant(
            old,
            new,
            ns,
            old.current_intrinsics().temporal_instant,
            h,
        ),
    }
    &&& has_date_part(d) ==> (r matches Err(x) && x.kind == ExceptionType::RangeError && *new == *old)
    &&& instant_sum(e, d, is_add) matches Some(x) ==> instant_sum(x, d, !is_add) == Some(e)
    &&& instant_sum(e, d, is_add) matches Some(x) ==> x as int == if is_add {
        e + duration_time_nanoseconds(d)
    } else {
        e - duration_time_nanoseconds(d)
    }
    &&& exact_time_duration(d) ==> match shifted_instant(e as int, d, is_add) {
        Some(x) => r matches Ok(v) && v@ matches ValueView::Instant(h) && creates_instant(
            old,
            new,
            x as i128,
            old.current_intrinsics().temporal_instant,
            h,
        ),
        None => r matches Err(x) && x.kind == ExceptionType::RangeError && *new == *old,
    }
}

/// Steps 2 to 7 of AddDurationToInstant, on the duration record.
fn add_duration_record_to_instant(agent: &mut Agent, instant: TemporalInstant, duration: DurationRecord, is_add: bool) -> (r: JsResult<Value>)
    requires
        old(agent).wf(),
        old(agent).heap.valid_instant(instant),
        room_for_instant(old(agent)),
    ensures
        adds_duration(old(agent), final(agent), instant, duration, is_add, r),
{
    // 2. If operation is subtract, set duration to CreateNegatedTemporalDuration(duration).
    // 3-5. The largest unit must be a time unit; the duration is balanced with 24-hour days.
    // 6. Let ns be ? AddInstant(instant.[[EpochNanoseconds]], internalDuration.[[Time]]).
    let epoch_nanoseconds = instant.inner_instant(agent);
    // A time part beyond what a time duration holds leaves the valid range
    // of instants, whatever the validity check of the duration says.
    if signs_agree_exec(&duration) && !time_part_in_range_exec(&duration) {
        return Err(JsError { kind: ExceptionType::RangeError, message: "the duration cannot be added to the instant" });
    }
    let ns_result = if is_add {
        add_duration(epoch_nanoseconds, duration)
    } else {
        subtract_duration(epoch_nanoseconds, duration)
    };
    match ns_result {
        None => Err(JsError { kind: ExceptionType::RangeError, message: "the duration cannot be added to the instant" }),
        Some(ns) => {
            // 7. Return ! CreateTemporalInstant(ns).
            let created = create_temporal_instant(agent, ns, None)?;
            Ok(created.into_value())
        },
    }
}

/// [8.5.10 AddDurationToInstant ( operation, instant, temporalDurationLike )](https://tc39.es/proposal-temporal/#sec-temporal-adddurationtoinstant)
/// Adds `duration`, a duration string or duration-like object, to
/// `instant` (subtracts it where `is_add` is false) and returns a new
/// Temporal.Instant; throws what ToTemporalDuration throws, and a
/// RangeError where `temporal_rs` refuses the duration or the result.
pub fn add_duration_to_instant(agent: &mut Agent, instant: TemporalInstant, duration: &Value, is_add: bool) -> (r: JsResult<Value>)
    requires
        old(agent).wf(),
        old(agent).heap.valid_instant(instant),
        old(agent).heap.valid_value(duration@),
        room_for_instant(old(agent)),
    ensures
        match spec_to_temporal_duration(old(agent), duration@) {
            Err(e) => r matches Err(x) && x.kind == e && *final(agent) == *old(agent),
            Ok(d) => adds_duration(old(agent), final(agent), instant, d, is_add, r),
        },
{
    // 1. Let duration be ? ToTemporalDuration(temporalDurationLike).
    let record = to_temporal_duration(agent, duration)?;
    add_duration_record_to_instant(agent, instant, record, is_add)
}

/// The identifier of a rounding mode, as `temporal_rs` parses it.
pub open spec fn rounding_mode_str(m: RoundingMode) -> Seq<char> {
    match m {
        RoundingMode::Ceil => "ceil"@,
        RoundingMode::Floor => "floor"@,
        RoundingMode::Expand => "expand"@,
        RoundingMode::Trunc => "trunc"@,
        RoundingMode::HalfCeil => "halfCeil"@,
        RoundingMode::HalfFloor => "halfFloor"@,
        RoundingMode::HalfExpand => "halfExpand"@,
        RoundingMode::HalfTrunc => "halfTrunc"@,
        RoundingMode::HalfEven => "halfEven"@,
    }
}

fn rounding_mode_identifier(m: RoundingMode) -> (r: &'static str)
    ensures
        r@ == rounding_mode_str(m),
{
    match m {
        RoundingMode::Ceil => "ceil",
        RoundingMode::Floor => "floor",
        RoundingMode::Expand => "expand",
        RoundingMode::Trunc => "trunc",
        RoundingMode::HalfCeil => "halfCeil",
        RoundingMode::HalfFloor => "halfFloor",
        RoundingMode::HalfExpand => "halfExpand",
        RoundingMode::HalfTrunc => "halfTrunc",
        RoundingMode::HalfEven => "halfEven",
    }
}

/// The duration that `temporal_rs` computes from `ns` until (or since)
/// `other` under the settings. GetDifferenceSettings has negated the
/// rounding mode of a since operation, and `temporal_rs` negates the mode it
/// is given for since, so since is handed the mode negated back; what it
/// returns is the duration until `ns` from `other` under that mode.
pub open spec fn instant_difference(ns: i128, other: i128, s: DifferenceSettings, is_until: bool) -> Option<DurationRecord> {
    if is_until {
        instant_until(
            ns,
            other,
            unit_rank(s.largest_unit) as usize,
            unit_rank(s.smallest_unit) as usize,
            rounding_mode_str(s.rounding_mode),
            s.rounding_increment,
        )
    } else {
        instant_until(
            other,
            ns,
            unit_rank(s.largest_unit) as usize,
            unit_rank(s.smallest_unit) as usize,
            rounding_mode_str(negate_rounding_mode(s.rounding_mode)),
            s.rounding_increment,
        )
    }
}

/// The settings that DifferenceTemporalInstant reads from `options`: those
/// of an empty options object where it is undefined, a TypeError where it
/// is a primitive.
pub open spec fn instant_difference_settings(agent: &Agent, options: ValueView, is_until: bool) -> Result<DifferenceSettings, ExceptionType> {
    if options is Undefined {
        resolve_difference_settings(
            is_until,
            None,
            1,
            RoundingMode::Trunc,
            None,
            UnitGroup::Time,
            Seq::empty(),
            TemporalUnit::Nanosecond,
            TemporalUnit::Second,
        )
    } else {
        match object_of(options) {
            Some(o) => spec_difference_settings(
                agent,
                o,
                UnitGroup::Time,
                Seq::empty(),
                TemporalUnit::Nanosecond,
                TemporalUnit::Second,
                is_until,
            ),
            None => Err(ExceptionType::TypeError),
        }
    }
}

/// DifferenceTemporalInstant(operation, instant, other, options) as a
/// duration record.
pub open spec fn spec_difference_temporal_instant(
    agent: &Agent,
    instant: TemporalInstant,
    other: ValueView,
    options: ValueView,
    is_until: bool,
) -> Result<DurationRecord, ExceptionType> {
    match spec_to_temporal_instant(agent, other) {
        Err(e) => Err(e),
        Ok(other_ns) => match instant_difference_settings(agent, options, is_until) {
            Err(e) => Err(e),
            Ok(s) => match instant_difference(agent.heap.instants@[instant.index()].instant, other_ns, s, is_until) {
                Some(d) => Ok(d),
                None => Err(ExceptionType::RangeError),
            },
        },
    }
}

/// The settings that DifferenceTemporalInstant reads are ones that the
/// difference of `temporal_rs` accepts.
proof fn lemma_time_settings_accepted(agent: &Agent, options: ValueView, is_until: bool)
    ensures
        instant_difference_settings(agent, options, is_until) matches Ok(s) ==> valid_time_difference_settings(
            unit_rank(s.largest_unit) as usize,
            unit_rank(s.smallest_unit) as usize,
            s.rounding_increment,
        ),
{
}

/// The duration `d` that DifferenceTemporalInstant gives is the difference
/// of the two instants (`other - instant` until, `instant - other` since)
/// rounded to a multiple of the rounding increment times the smallest unit
/// with the rounding mode asked for (GetDifferenceSettings holds the
/// negated mode for since), balanced up to the largest unit.
pub open spec fn difference_rounded(
    agent: &Agent,
    instant: TemporalInstant,
    other: ValueView,
    options: ValueView,
    is_until: bool,
    d: DurationRecord,
) -> bool {
    match spec_to_temporal_instant(agent, other) {
        Ok(o) => match instant_difference_settings(agent, options, is_until) {
            Ok(s) => {
                let e = agent.heap.instants@[instant.index()].instant;
                let m = s.rounding_increment * unit_nanoseconds(unit_rank(s.smallest_unit) as usize);
                &&& balanced_time_duration(d, unit_rank(s.largest_unit) as usize)
                &&& duration_time_nanoseconds(d) == if is_until {
                    round_to_increment(o - e, m, s.rounding_mode)
                } else {
                    round_to_increment(e - o, m, negate_rounding_mode(s.rounding_mode))
                }
            },
            Err(_) => false,
        },
        Err(_) => false,
    }
}

/// The completion with its duration negated.
pub open spec fn negated_result(r: Result<DurationRecord, ExceptionType>) -> Result<DurationRecord, ExceptionType> {
    match r {
        Ok(d) => Ok(negated_duration(d)),
        Err(e) => Err(e),
    }
}

/// Every Get on an object without properties and prototype is undefined.
proof fn lemma_empty_object_get(agent: &Agent, o: OrdinaryObject, key: PropertyKeyView)
    requires
        agent.wf(),
        agent.heap.valid_object(o),
        agent.heap.objects@[o.0 as int].prototype is None,
        agent.heap.objects@[o.0 as int].properties@.len() == 0,
    ensures
        agent.spec_get(Object::Object(o), key) is Undefined,
{
    assert(find_property(agent.heap.objects@[o.0 as int].properties@, key) is None);
}

/// [8.5.9 DifferenceTemporalInstant ( operation, instant, other, options )](https://tc39.es/proposal-temporal/#sec-temporal-differencetemporalinstant)
/// Computes the difference between the two times represented by `instant`
/// and `other` (until where `is_until`, else since), rounded as `options`
/// asks, as a duration record.
pub fn difference_temporal_instant(
    agent: &mut Agent,
    instant: TemporalInstant,
    other: &Value,
    options: &Value,
    is_until: bool,
) -> (r: JsResult<DurationRecord>)
    requires
        old(agent).wf(),
        old(agent).heap.valid_instant(instant),
        old(agent).heap.valid_value(other@),
        old(agent).heap.valid_value(options@),
        old(agent).heap.objects.len() + 1 < u32::MAX,
    ensures
        final(agent).wf(),
        completes_as(r, spec_difference_temporal_instant(old(agent), instant, other@, options@, is_until)),
        (spec_to_temporal_instant(old(agent), other@) is Ok && options@ is Undefined) ==> {
            &&& same_realms(old(agent), final(agent))
            &&& final(agent).heap.instants == old(agent).heap.instants
            &&& final(agent).heap.zoned_date_times == old(agent).heap.zoned_date_times
            &&& final(agent).heap.objects@.len() == old(agent).heap.objects@.len() + 1
            &&& forall|i: int| 0 <= i < old(agent).heap.objects.len() ==> final(agent).heap.objects@[i] == old(agent).heap.objects@[i]
            &&& final(agent).heap.objects@[old(agent).heap.objects.len() as int].prototype is None
            &&& final(agent).heap.objects@[old(agent).heap.objects.len() as int].properties@.len() == 0
        },
        !(spec_to_temporal_instant(old(agent), other@) is Ok && options@ is Undefined) ==> *final(agent) == *old(agent),
        spec_to_temporal_instant(old(agent), other@) == Ok::<i128, ExceptionType>(
            old(agent).heap.instants@[instant.index()].instant,
        ) ==> (r matches Ok(d) ==> d == blank_duration()),
        (other@ is Instant && instant_difference_settings(old(agent), options@, is_until) is Ok) ==> r is Ok,
        (other@ == ValueView::Instant(instant) && options@ is Undefined) ==> (r matches Ok(d) && d
            == blank_duration()),
        (spec_to_temporal_instant(old(agent), other@) is Ok && options@ is Undefined) ==> spec_difference_temporal_instant(
            old(agent),
            instant,
            other@,
            options@,
            !is_until,
        ) == negated_result(spec_difference_temporal_instant(old(agent), instant, other@, options@, is_until)),
        r matches Ok(d) ==> difference_rounded(old(agent), instant, other@, options@, is_until, d),
{
    // 1. Set other to ? ToTemporalInstant(other).
    let other_ns = to_temporal_instant(agent, other)?;
    let ghost before = *agent;
    // 2. Let resolvedOptions be ? GetOptionsObject(options).
    let resolved_options = get_options_object(agent, options)?;
    proof {
        if options@ is Undefined {
            if let Object::Object(o) = resolved_options {
                lemma_empty_object_get(agent, o, PropertyKeyView::String(key_largest_unit()));
                lemma_empty_object_get(agent, o, PropertyKeyView::String(key_smallest_unit()));
                lemma_empty_object_get(agent, o, PropertyKeyView::String(key_rounding_increment()));
                lemma_empty_object_get(agent, o, PropertyKeyView::String(key_rounding_mode()));
            }
        }
    }
    // 3. Let settings be ? GetDifferenceSettings(operation, resolvedOptions, time, « », nanosecond, second).
    let disallowed: Vec<TemporalUnit> = Vec::new();
    let settings = get_difference_settings(
        agent,
        resolved_options,
        UnitGroup::Time,
        &disallowed,
        TemporalUnit::Nanosecond,
        TemporalUnit::Second,
        is_until,
    )?;
    // 4. Let internalDuration be DifferenceInstant(instant.[[EpochNanoseconds]], other.[[EpochNanoseconds]],
    //    settings.[[RoundingIncrement]], settings.[[SmallestUnit]], settings.[[RoundingMode]]).
    // 5. Let result be ! TemporalDurationFromInternal(internalDuration, settings.[[LargestUnit]]).
    // 6. If operation is since, set result to CreateNegatedTemporalDuration(result).
    let epoch_nanoseconds = instant.inner_instant(agent);
    proof {
        lemma_time_settings_accepted(&before, options@, is_until);
    }
    let largest = unit_number(settings.largest_unit);
    let smallest = unit_number(settings.smallest_unit);
    let result = if is_until {
        let mode = rounding_mode_identifier(settings.rounding_mode);
        assert(mode@ == rounding_mode_str(settings.rounding_mode));
        difference_until(epoch_nanoseconds, other_ns, largest, smallest, mode, settings.rounding_increment)
    } else {
        // `temporal_rs` applies NegateRoundingMode for since itself.
        let mode = rounding_mode_identifier(negate_rounding_mode_exec(settings.rounding_mode));
        assert(mode@ == rounding_mode_str(negate_rounding_mode(settings.rounding_mode)));
        difference_since(epoch_nanoseconds, other_ns, largest, smallest, mode, settings.rounding_increment)
    };
    proof {
        if options@ is Undefined {
            assert(negate_rounding_mode(RoundingMode::Trunc) == RoundingMode::Trunc);
            assert(instant_difference_settings(&before, options@, true) == instant_difference_settings(
                &before,
                options@,
                false,
            ));
            assert(settings.rounding_mode == RoundingMode::Trunc);
            assert(rounding_mode_str(RoundingMode::Trunc) == "trunc"@);
            assert(rounding_mode_str(negate_rounding_mode(RoundingMode::Trunc)) == "trunc"@);
        }
    }
    // 7. Return result.
    match result {
        Some(d) => Ok(d),
        None => Err(JsError { kind: ExceptionType::RangeError, message: "the difference cannot be computed" }),
    }
}

} // verus!

verus! {

/// A Temporal.Instant that CreateTemporalInstant made holds the epoch
/// nanoseconds it was made with, and its [[Prototype]] is the one that its
/// constructor's "prototype" property gave it.
pub proof fn created_instant_reads_back(old: &Agent, new: &Agent, ns: i128, constructor: Function, h: TemporalInstant)
    requires
        old.wf(),
        creates_instant(old, new, ns, constructor, h),
    ensures
        new.heap.valid_instant(h),
        new.heap.instants@[h.index()].instant == ns,
        new.prototype_of(Object::Instant(h)) == Some(instant_prototype_from_constructor(old, constructor)),
{
}

/// The root-list entry of an instant gives the instant back.
pub proof fn instant_root_round_trip(h: TemporalInstant)
    ensures
        TemporalInstant::to_root_repr(h) matches Err(data) && TemporalInstant::from_heap_data(data) == Some(h),
{
}

} // verus!

verus! {

/// Subtracting a time duration undoes adding it: where adding `d` to `e`
/// stays in range, subtracting `d` from the sum gives `e` back.
pub proof fn subtraction_undoes_addition(e: int, d: DurationRecord)
    requires
        is_valid_epoch_nanoseconds(e),
    ensures
        shifted_instant(e, d, true) matches Some(x) ==> shifted_instant(x, d, false) == Some(e),
{
}

} // verus!

verus! {

/// Since and until mirror each other: the duration of `a` since `b` is
/// the duration of `b` until `a` under the same options, and where one
/// throws the other throws the same kind of error.
pub proof fn since_is_until_reversed(agent: &Agent, a: TemporalInstant, b: TemporalInstant, options: ValueView)
    requires
        agent.wf(),
        agent.heap.valid_instant(a),
        agent.heap.valid_instant(b),
    ensures
        spec_difference_temporal_instant(agent, a, ValueView::Instant(b), options, false)
            == spec_difference_temporal_instant(agent, b, ValueView::Instant(a), options, true),
{
    let until = instant_difference_settings(agent, options, true);
    if let Ok(s) = until {
        crate::options::negate_rounding_mode_involution(s.rounding_mode);
    }
}

} // verus!

verus! {

/// RoundNumberToIncrement gives a multiple of the increment less than one
/// increment away from the number rounded.
proof fn lemma_round_to_increment(x: int, m: int, mode: RoundingMode)
    requires
        m > 0,
    ensures
        round_to_increment(x, m, mode) % m == 0,
        x - m < round_to_increment(x, m, mode) < x + m,
{
    let q = x / m;
    let r = x % m;
    vstd::arithmetic::div_mod::lemma_fundamental_div_mod(x, m);
    vstd::arithmetic::div_mod::lemma_mod_multiples_basic(q, m);
    vstd::arithmetic::div_mod::lemma_mod_multiples_basic(q + 1, m);
    vstd::arithmetic::mul::lemma_mul_is_distributive_add_other_way(m, q, 1);
    vstd::arithmetic::mul::lemma_mul_is_commutative(m, q);
    assert(0 <= r < m);
}

/// The duration between two instants is rounded to the increment: it is a
/// multiple of the rounding increment times the smallest unit, less than
/// one such step away from the exact difference (`other - instant` until,
/// `instant - other` since), and holds nothing in date units.
pub proof fn difference_is_rounded_to_increment(
    agent: &Agent,
    instant: TemporalInstant,
    other: ValueView,
    options: ValueView,
    is_until: bool,
    d: DurationRecord,
)
    requires
        difference_rounded(agent, instant, other, options, is_until, d),
    ensures
        spec_to_temporal_instant(agent, other) matches Ok(o) && instant_difference_settings(agent, options, is_until)
            matches Ok(s) && ({
            let e = agent.heap.instants@[instant.index()].instant;
            let step = s.rounding_increment * unit_nanoseconds(unit_rank(s.smallest_unit) as usize);
            let exact = if is_until { o - e } else { e - o };
            &&& step > 0
            &&& duration_time_nanoseconds(d) % step == 0
            &&& exact - step < duration_time_nanoseconds(d) < exact + step
            &&& !has_date_part(d)
        }),
{
    let o = spec_to_temporal_instant(agent, other)->Ok_0;
    let s = instant_difference_settings(agent, options, is_until)->Ok_0;
    let e = agent.heap.instants@[instant.index()].instant;
    let step = s.rounding_increment * unit_nanoseconds(unit_rank(s.smallest_unit) as usize);
    lemma_time_settings_accepted(agent, options, is_until);
    assert(step > 0) by (nonlinear_arith)
        requires
            step == s.rounding_increment * unit_nanoseconds(unit_rank(s.smallest_unit) as usize),
            s.rounding_increment >= 1,
            unit_nanoseconds(unit_rank(s.smallest_unit) as usize) >= 1,
    ;
    if is_until {
        lemma_round_to_increment(o - e, step, s.rounding_mode);
    } else {
        lemma_round_to_increment(e - o, step, negate_rounding_mode(s.rounding_mode));
    }
}

} // verus!

verus! {

/// Rounding a negated number with the negated mode gives the negated
/// rounding: NegateRoundingMode pairs each mode with the one that rounds
/// the mirrored number the mirrored way.
pub proof fn negated_mode_rounds_negation(x: int, m: int, mode: RoundingMode)
    requires
        m > 0,
    ensures
        round_to_increment(-x, m, negate_rounding_mode(mode)) == -round_to_increment(x, m, mode),
{
    let q = x / m;
    let r = x % m;
    vstd::arithmetic::div_mod::lemma_fundamental_div_mod(x, m);
    vstd::arithmetic::mul::lemma_mul_is_commutative(m, q);
    assert(x == q * m + r);
    if r == 0 {
        vstd::arithmetic::mul::lemma_mul_unary_negation(q, m);
        vstd::arithmetic::div_mod::lemma_fundamental_div_mod_converse(-x, m, -q, 0);
    } else {
        assert(-x == (-q - 1) * m + (m - r)) by (nonlinear_arith)
            requires
                x == q * m + r,
        ;
        vstd::arithmetic::div_mod::lemma_fundamental_div_mod_converse(-x, m, -q - 1, m - r);
        assert((-q - 1) * m == -(q * m) - m) by (nonlinear_arith);
        assert((-q - 1) % 2 == 0 <==> q % 2 != 0);
    }
}

} // verus!
