use vstd::prelude::*;

use crate::instant::{key_prototype, InstantHeapData, TemporalInstant};
use crate::temporal::is_valid_epoch_nanoseconds;
use crate::value::{bytes_equal, object_of, Object, Value, ValueView};
use crate::zoned_date_time::{TemporalZonedDateTime, ZonedDateTimeHeapData};

verus! {

/// A handle to an ordinary object in the engine heap.
#[derive(Clone, Copy, Debug, PartialEq, Eq, Structural)]
pub struct OrdinaryObject(pub u32);

/// A handle to a function object; its properties live in an ordinary object.
#[derive(Clone, Copy, Debug, PartialEq, Eq, Structural)]
pub struct Function(pub OrdinaryObject);

/// The symbol key of the well-known symbol @@toStringTag.
pub const TO_STRING_TAG: u32 = 11;

/// A property key: a string, held as bytes, or a symbol.
#[derive(Debug)]
pub enum PropertyKey {
    String(Vec<u8>),
    Symbol(u32),
}

/// The view of a [`PropertyKey`].
pub enum PropertyKeyView {
    String(Seq<u8>),
    Symbol(u32),
}

impl View for PropertyKey {
    type V = PropertyKeyView;

    open spec fn view(&self) -> PropertyKeyView {
        match self {
            PropertyKey::String(s) => PropertyKeyView::String(s@),
            PropertyKey::Symbol(s) => PropertyKeyView::Symbol(*s),
        }
    }
}

impl PropertyKey {
    /// Whether two keys are the same key.
    pub fn same_key(&self, other: &PropertyKey) -> (r: bool)
        ensures
            r == (self@ == other@),
    {
        match (self, other) {
            (PropertyKey::String(a), PropertyKey::String(b)) => bytes_equal(a.as_slice(), b.as_slice()),
            (PropertyKey::Symbol(a), PropertyKey::Symbol(b)) => *a == *b,
            _ => false,
        }
    }
}

/// A data property of an object.
#[derive(Debug)]
pub struct Property {
    pub key: PropertyKey,
    pub value: Value,
    pub writable: bool,
    pub enumerable: bool,
    pub configurable: bool,
}

/// The heap record of an ordinary object: its [[Prototype]] and its own
/// properties, in the order they were defined.
#[derive(Debug)]
pub struct ObjectHeapData {
    pub prototype: Option<Object>,
    pub properties: Vec<Property>,
}

/// The engine heap.
#[derive(Debug)]
pub struct Heap {
    pub objects: Vec<ObjectHeapData>,
    pub instants: Vec<InstantHeapData>,
    pub zoned_date_times: Vec<ZonedDateTimeHeapData>,
    pub alloc_counter: usize,
}

/// A handle to a realm record of the agent.
#[derive(Clone, Copy, Debug, PartialEq, Eq, Structural)]
pub struct Realm(pub u32);

/// The intrinsic objects of a realm that the Temporal built-ins use.
#[derive(Clone, Copy, Debug)]
pub struct Intrinsics {
    pub object_prototype: OrdinaryObject,
    pub function_prototype: OrdinaryObject,
    pub temporal_instant: Function,
    pub temporal_instant_prototype: OrdinaryObject,
    pub temporal_zoned_date_time: Function,
    pub temporal_zoned_date_time_prototype: OrdinaryObject,
}

/// A realm record.
#[derive(Debug)]
pub struct RealmRecord {
    pub intrinsics: Intrinsics,
}

/// The agent: the heap, the realms and the running realm.
#[derive(Debug)]
pub struct Agent {
    pub heap: Heap,
    pub realms: Vec<RealmRecord>,
    pub current_realm: Realm,
}

/// The kinds of error objects that the Temporal built-ins throw.
#[derive(Clone, Copy, Debug, PartialEq, Eq, Structural)]
pub enum ExceptionType {
    RangeError,
    TypeError,
}

/// A throw completion.
#[derive(Debug)]
pub struct JsError {
    pub kind: ExceptionType,
    pub message: &'static str,
}

/// A completion record: a normal value or a throw completion.
pub type JsResult<T> = Result<T, JsError>;

/// The completion `r` is the one that `s` describes: the same normal value,
/// or a throw completion of the same kind.
pub open spec fn completes_as<T>(r: JsResult<T>, s: Result<T, ExceptionType>) -> bool {
    match r {
        Ok(v) => s == Ok::<T, ExceptionType>(v),
        Err(e) => s == Err::<T, ExceptionType>(e.kind),
    }
}

/// The first index at or after `i` whose property has key `key`.
pub open spec fn find_property_from(props: Seq<Property>, key: PropertyKeyView, i: int) -> Option<int>
    decreases props.len() - i,
{
    if i < 0 || i >= props.len() {
        None
    } else if props[i].key@ == key {
        Some(i)
    } else {
        find_property_from(props, key, i + 1)
    }
}

/// The index of the own property of `props` whose key is `key`.
pub open spec fn find_property(props: Seq<Property>, key: PropertyKeyView) -> Option<int> {
    find_property_from(props, key, 0)
}

/// The index of the own property whose key is `key`, if there is one.
pub fn find_own_property(props: &Vec<Property>, key: &PropertyKey) -> (r: Option<usize>)
    ensures
        match r {
            Some(j) => j < props.len() && find_property(props@, key@) == Some(j as int),
            None => find_property(props@, key@) is None,
        },
{
    let mut i: usize = 0;
    while i < props.len()
        invariant
            i <= props.len(),
            find_property(props@, key@) == find_property_from(props@, key@, i as int),
        decreases props.len() - i,
    {
        if props[i].key.same_key(key) {
            return Some(i);
        }
        i = i + 1;
    }
    None
}

impl Heap {
    pub open spec fn valid_object(&self, o: OrdinaryObject) -> bool {
        (o.0 as int) < self.objects.len()
    }

    pub open spec fn valid_instant(&self, i: TemporalInstant) -> bool {
        i.index() < self.instants.len()
    }

    pub open spec fn valid_zoned_date_time(&self, z: TemporalZonedDateTime) -> bool {
        z.index() < self.zoned_date_times.len()
    }

    /// The handle refers to a record of this heap.
    pub open spec fn valid_object_ref(&self, o: Object) -> bool {
        match o {
            Object::Object(o) => self.valid_object(o),
            Object::Instant(i) => self.valid_instant(i),
            Object::ZonedDateTime(z) => self.valid_zoned_date_time(z),
        }
    }

    /// Every handle in the value refers to a record of this heap.
    pub open spec fn valid_value(&self, v: ValueView) -> bool {
        match object_of(v) {
            Some(o) => self.valid_object_ref(o),
            None => true,
        }
    }

    pub open spec fn valid_backing(&self, b: Option<OrdinaryObject>) -> bool {
        match b {
            Some(o) => self.valid_object(o),
            None => true,
        }
    }

    /// The heap's invariant: every handle it holds refers to one of its
    /// records, every instant lies in the valid range, and every kind of
    /// record can be counted by a `u32` handle.
    pub open spec fn wf(&self) -> bool {
        &&& self.objects.len() < u32::MAX
        &&& self.instants.len() < u32::MAX
        &&& self.zoned_date_times.len() < u32::MAX
        &&& forall|i: int|
            0 <= i < self.objects.len() ==> match #[trigger] self.objects@[i].prototype {
                Some(p) => self.valid_object_ref(p),
                None => true,
            }
        &&& forall|i: int, j: int|
            0 <= i < self.objects.len() && 0 <= j < self.objects@[i].properties.len()
                ==> self.valid_value(#[trigger] self.objects@[i].properties@[j].value@)
        &&& forall|i: int|
            0 <= i < self.instants.len() ==> self.valid_backing(#[trigger] self.instants@[i].object_index)
        &&& forall|i: int|
            0 <= i < self.instants.len() ==> is_valid_epoch_nanoseconds(#[trigger] self.instants@[i].instant as int)
        &&& forall|i: int|
            0 <= i < self.zoned_date_times.len() ==> self.valid_backing(
                #[trigger] self.zoned_date_times@[i].object_index,
            )
    }
}

impl Heap {
    /// %Temporal.Instant% of the intrinsics has an own "prototype" property
    /// whose value is %Temporal.Instant.prototype% of the intrinsics.
    pub open spec fn instant_constructor_linked(&self, i: Intrinsics) -> bool {
        let props = self.objects@[i.temporal_instant.0.0 as int].properties@;
        match find_property(props, PropertyKeyView::String(key_prototype())) {
            Some(j) => props[j].value@ == ValueView::Object(i.temporal_instant_prototype),
            None => false,
        }
    }
}

impl Intrinsics {
    /// The `k`-th intrinsic object, in the order of the fields.
    pub open spec fn object_at(&self, k: int) -> OrdinaryObject {
        if k == 0 {
            self.object_prototype
        } else if k == 1 {
            self.function_prototype
        } else if k == 2 {
            self.temporal_instant.0
        } else if k == 3 {
            self.temporal_instant_prototype
        } else if k == 4 {
            self.temporal_zoned_date_time.0
        } else {
            self.temporal_zoned_date_time_prototype
        }
    }

    pub open spec fn valid(&self, heap: &Heap) -> bool {
        &&& heap.valid_object(self.object_prototype)
        &&& heap.valid_object(self.function_prototype)
        &&& heap.valid_object(self.temporal_instant.0)
        &&& heap.valid_object(self.temporal_instant_prototype)
        &&& heap.valid_object(self.temporal_zoned_date_time.0)
        &&& heap.valid_object(self.temporal_zoned_date_time_prototype)
    }
}

impl Agent {
    pub open spec fn valid_realm(&self, r: Realm) -> bool {
        (r.0 as int) < self.realms.len()
    }

    /// The intrinsics of a realm.
    pub open spec fn intrinsics_of(&self, r: Realm) -> Intrinsics {
        self.realms@[r.0 as int].intrinsics
    }

    /// The intrinsics of the running realm.
    pub open spec fn current_intrinsics(&self) -> Intrinsics {
        self.intrinsics_of(self.current_realm)
    }

    /// No two intrinsic objects, of one realm or of two, are the same object.
    pub open spec fn intrinsics_distinct(&self) -> bool {
        forall|r1: int, k1: int, r2: int, k2: int|
            0 <= r1 < self.realms.len() && 0 <= r2 < self.realms.len() && 0 <= k1 < 6 && 0 <= k2 < 6 && (r1
                != r2 || k1 != k2) ==> #[trigger] self.realms@[r1].intrinsics.object_at(k1)
                != #[trigger] self.realms@[r2].intrinsics.object_at(k2)
    }


    /// The agent's invariant: the heap's; every realm's intrinsics are
    /// distinct objects of the heap; and every %Temporal.Instant% has its
    /// prototype as its "prototype" property.
    pub open spec fn wf(&self) -> bool {
        &&& self.heap.wf()
        &&& self.realms.len() < u32::MAX
        &&& self.valid_realm(self.current_realm)
        &&& forall|r: int|
            0 <= r < self.realms.len() ==> (#[trigger] self.realms@[r]).intrinsics.valid(&self.heap)
        &&& self.intrinsics_distinct()
        &&& forall|r: int|
            0 <= r < self.realms.len() ==> self.heap.instant_constructor_linked((#[trigger] self.realms@[r]).intrinsics)
    }

    /// The ordinary object whose properties are the own properties of `o`:
    /// `o` itself, or the backing object of an exotic object, if it has one.
    pub open spec fn own_storage(&self, o: Object) -> Option<OrdinaryObject> {
        match o {
            Object::Object(o) => Some(o),
            Object::Instant(i) => self.heap.instants@[i.index()].object_index,
            Object::ZonedDateTime(z) => self.heap.zoned_date_times@[z.index()].object_index,
        }
    }

    /// The [[Prototype]] of `o`. An exotic object without a backing object
    /// has the default prototype of its kind in the running realm.
    pub open spec fn prototype_of(&self, o: Object) -> Option<Object> {
        match self.own_storage(o) {
            Some(b) => self.heap.objects@[b.0 as int].prototype,
            None => match o {
                Object::Instant(_) => Some(
                    Object::Object(self.current_intrinsics().temporal_instant_prototype),
                ),
                _ => Some(Object::Object(self.current_intrinsics().temporal_zoned_date_time_prototype)),
            },
        }
    }

    /// The value that a lookup of `key` finds from `o` along the prototype
    /// chain, visiting at most `fuel` objects.
    pub open spec fn lookup(&self, o: Object, key: PropertyKeyView, fuel: nat) -> ValueView
        decreases fuel,
    {
        if fuel == 0 {
            ValueView::Undefined
        } else {
            let found = match self.own_storage(o) {
                Some(b) => match find_property(self.heap.objects@[b.0 as int].properties@, key) {
                    Some(j) => Some(self.heap.objects@[b.0 as int].properties@[j].value@),
                    None => None,
                },
                None => None,
            };
            match found {
                Some(v) => v,
                None => match self.prototype_of(o) {
                    Some(p) => self.lookup(p, key, (fuel - 1) as nat),
                    None => ValueView::Undefined,
                },
            }
        }
    }

    /// Get(O, P) on an object of the heap. A prototype chain visits each
    /// object once, so one more step than there are objects ends it.
    pub open spec fn spec_get(&self, o: Object, key: PropertyKeyView) -> ValueView {
        self.lookup(o, key, (self.heap.objects.len() + 1) as nat)
    }

    /// The backing object of `o`, as [`Agent::own_storage`] defines it.
    pub fn own_storage_of(&self, o: Object) -> (r: Option<OrdinaryObject>)
        requires
            self.wf(),
            self.heap.valid_object_ref(o),
        ensures
            r == self.own_storage(o),
            self.heap.valid_backing(r),
    {
        match o {
            Object::Object(o) => Some(o),
            Object::Instant(i) => self.heap.instants[i.0 as usize].object_index,
            Object::ZonedDateTime(z) => self.heap.zoned_date_times[z.0 as usize].object_index,
        }
    }

    /// The [[Prototype]] of `o`, as [`Agent::prototype_of`] defines it.
    pub fn get_prototype_of(&self, o: Object) -> (r: Option<Object>)
        requires
            self.wf(),
            self.heap.valid_object_ref(o),
        ensures
            r == self.prototype_of(o),
            r matches Some(p) ==> self.heap.valid_object_ref(p),
    {
        match self.own_storage_of(o) {
            Some(b) => self.heap.objects[b.0 as usize].prototype,
            None => {
                let intrinsics = self.realms[self.current_realm.0 as usize].intrinsics;
                match o {
                    Object::Instant(_) => Some(Object::Object(intrinsics.temporal_instant_prototype)),
                    _ => Some(Object::Object(intrinsics.temporal_zoned_date_time_prototype)),
                }
            },
        }
    }

    /// Get(O, P): the value of property `key` of `o`, found along the
    /// prototype chain; undefined where no object on it has the property.
    pub fn get(&self, o: Object, key: &PropertyKey) -> (v: Value)
        requires
            self.wf(),
            self.heap.valid_object_ref(o),
        ensures
            v@ == self.spec_get(o, key@),
            self.heap.valid_value(v@),
    {
        let ghost k = key@;
        let mut current = o;
        let mut fuel: u64 = self.heap.objects.len() as u64 + 1;
        while fuel > 0
            invariant
                self.wf(),
                self.heap.valid_object_ref(current),
                k == key@,
                self.spec_get(o, k) == self.lookup(current, k, fuel as nat),
            decreases fuel,
        {
            match self.own_storage_of(current) {
                Some(b) => {
                    let props = &self.heap.objects[b.0 as usize].properties;
                    match find_own_property(props, key) {
                        Some(j) => {
                            assert(self.heap.valid_value(self.heap.objects@[b.0 as int].properties@[j as int].value@));
                            return props[j].value.copy();
                        },
                        None => {},
                    }
                },
                None => {},
            }
            match self.get_prototype_of(current) {
                Some(p) => {
                    current = p;
                    fuel = fuel - 1;
                },
                None => {
                    return Value::Undefined;
                },
            }
        }
        Value::Undefined
    }
}

impl Heap {
    /// Every handle of `self` stays valid in `other`: no kind of record has
    /// fewer records there.
    pub open spec fn grows_to(&self, other: &Heap) -> bool {
        &&& self.objects.len() <= other.objects.len()
        &&& self.instants.len() <= other.instants.len()
        &&& self.zoned_date_times.len() <= other.zoned_date_times.len()
    }

    /// A record that may be added to this heap: its prototype and property
    /// values are handles of the heap.
    pub open spec fn valid_object_data(&self, data: &ObjectHeapData) -> bool {
        &&& match data.prototype {
            Some(p) => self.valid_object_ref(p),
            None => true,
        }
        &&& forall|j: int| 0 <= j < data.properties.len() ==> self.valid_value(#[trigger] data.properties@[j].value@)
    }

    /// Adds an ordinary object to the heap and returns its handle.
    pub fn create_object(&mut self, data: ObjectHeapData) -> (o: OrdinaryObject)
        requires
            old(self).wf(),
            old(self).valid_object_data(&data),
            old(self).objects.len() + 1 < u32::MAX,
        ensures
            final(self).wf(),
            old(self).grows_to(&*final(self)),
            o.0 as int == old(self).objects.len(),
            final(self).objects@ == old(self).objects@.push(data),
            final(self).instants == old(self).instants,
            final(self).zoned_date_times == old(self).zoned_date_times,
            final(self).alloc_counter == old(self).alloc_counter,
    {
        let index = self.objects.len() as u32;
        let ghost before = *self;
        let ghost d = data;
        self.objects.push(data);
        proof {
            assert forall|i: int| 0 <= i < self.objects.len() implies match #[trigger] self.objects@[i].prototype {
                Some(p) => self.valid_object_ref(p),
                None => true,
            } by {
                if i < before.objects.len() {
                    assert(self.objects@[i] == before.objects@[i]);
                }
            }
            assert forall|i: int, j: int|
                0 <= i < self.objects.len() && 0 <= j < self.objects@[i].properties.len()
                implies self.valid_value(#[trigger] self.objects@[i].properties@[j].value@) by {
                if i < before.objects.len() {
                    assert(self.objects@[i] == before.objects@[i]);
                    assert(before.valid_value(before.objects@[i].properties@[j].value@));
                } else {
                    assert(self.objects@[i] == d);
                    assert(before.valid_value(d.properties@[j].value@));
                }
            }
            assert forall|i: int| 0 <= i < self.instants.len() implies self.valid_backing(
                #[trigger] self.instants@[i].object_index,
            ) by {
                assert(before.valid_backing(before.instants@[i].object_index));
            }
            assert forall|i: int| 0 <= i < self.zoned_date_times.len() implies self.valid_backing(
                #[trigger] self.zoned_date_times@[i].object_index,
            ) by {
                assert(before.valid_backing(before.zoned_date_times@[i].object_index));
            }
        }
        OrdinaryObject(index)
    }
}

impl Agent {
    /// The intrinsics of every realm stay objects of a heap that grows from
    /// the agent's heap and keeps its objects, and stay linked there.
    pub proof fn lemma_heap_grows(&self, heap: &Heap)
        requires
            self.wf(),
            heap.wf(),
            self.heap.grows_to(heap),
            forall|i: int| 0 <= i < self.heap.objects.len() ==> heap.objects@[i] == self.heap.objects@[i],
        ensures
            forall|r: int| 0 <= r < self.realms.len() ==> (#[trigger] self.realms@[r]).intrinsics.valid(heap),
            forall|r: int| 0 <= r < self.realms.len() ==> heap.instant_constructor_linked((#[trigger] self.realms@[r]).intrinsics),
    {
        assert forall|r: int| 0 <= r < self.realms.len() implies (#[trigger] self.realms@[r]).intrinsics.valid(heap) by {
            assert(self.realms@[r].intrinsics.valid(&self.heap));
        }
        assert forall|r: int| 0 <= r < self.realms.len() implies heap.instant_constructor_linked((#[trigger] self.realms@[r]).intrinsics) by {
            assert(self.realms@[r].intrinsics.valid(&self.heap));
            assert(self.heap.instant_constructor_linked(self.realms@[r].intrinsics));
            let c = self.realms@[r].intrinsics.temporal_instant.0.0 as int;
            assert(heap.objects@[c] == self.heap.objects@[c]);
        }
    }

    /// OrdinaryObjectCreate(null): a new object with no prototype and no
    /// properties.
    pub fn create_empty_object(&mut self) -> (o: OrdinaryObject)
        requires
            old(self).wf(),
            old(self).heap.objects.len() + 1 < u32::MAX,
        ensures
            final(self).wf(),
            old(self).heap.grows_to(&final(self).heap),
            o.0 as int == old(self).heap.objects.len(),
            final(self).heap.objects@.len() == old(self).heap.objects@.len() + 1,
            forall|i: int| 0 <= i < old(self).heap.objects.len() ==> final(self).heap.objects@[i] == old(self).heap.objects@[i],
            final(self).heap.objects@[o.0 as int].prototype is None,
            final(self).heap.objects@[o.0 as int].properties@.len() == 0,
            final(self).heap.instants == old(self).heap.instants,
            final(self).heap.zoned_date_times == old(self).heap.zoned_date_times,
            final(self).heap.alloc_counter == old(self).heap.alloc_counter,
            final(self).realms == old(self).realms,
            final(self).current_realm == old(self).current_realm,
    {
        let ghost before = *self;
        let o = self.heap.create_object(ObjectHeapData { prototype: None, properties: Vec::new() });
        proof {
            before.lemma_heap_grows(&self.heap);
        }
        o
    }
}

} // verus!

verus! {

impl Agent {
    /// An agent with one realm whose intrinsic objects are the first six
    /// objects of an otherwise empty heap: %Object.prototype%,
    /// %Function.prototype%, %Temporal.Instant% (whose "prototype" is
    /// %Temporal.Instant.prototype%), %Temporal.Instant.prototype%,
    /// %Temporal.ZonedDateTime% and %Temporal.ZonedDateTime.prototype%.
    pub fn new() -> (agent: Agent)
        ensures
            agent.wf(),
            agent.realms@.len() == 1,
            agent.current_realm == Realm(0),
            agent.heap.objects@.len() == 6,
            agent.heap.instants@.len() == 0,
            agent.heap.zoned_date_times@.len() == 0,
            agent.heap.alloc_counter == 0,
            agent.current_intrinsics().object_prototype == OrdinaryObject(0),
            agent.current_intrinsics().function_prototype == OrdinaryObject(1),
            agent.current_intrinsics().temporal_instant == Function(OrdinaryObject(2)),
            agent.current_intrinsics().temporal_instant_prototype == OrdinaryObject(3),
            agent.current_intrinsics().temporal_zoned_date_time == Function(OrdinaryObject(4)),
            agent.current_intrinsics().temporal_zoned_date_time_prototype == OrdinaryObject(5),
    {
        let object_prototype = OrdinaryObject(0);
        let function_prototype = Some(Object::Object(OrdinaryObject(1)));
        let mut objects: Vec<ObjectHeapData> = Vec::new();
        objects.push(ObjectHeapData { prototype: None, properties: Vec::new() });
        objects.push(ObjectHeapData { prototype: Some(Object::Object(object_prototype)), properties: Vec::new() });
        let mut instant_constructor_properties: Vec<Property> = Vec::new();
        instant_constructor_properties.push(
            Property {
                key: PropertyKey::String(
                    vec!['p' as u8, 'r' as u8, 'o' as u8, 't' as u8, 'o' as u8, 't' as u8, 'y' as u8, 'p' as u8, 'e' as u8],
                ),
                value: Value::Object(OrdinaryObject(3)),
                writable: false,
                enumerable: false,
                configurable: false,
            },
        );
        objects.push(ObjectHeapData { prototype: function_prototype, properties: instant_constructor_properties });
        objects.push(ObjectHeapData { prototype: Some(Object::Object(object_prototype)), properties: Vec::new() });
        objects.push(ObjectHeapData { prototype: function_prototype, properties: Vec::new() });
        objects.push(ObjectHeapData { prototype: Some(Object::Object(object_prototype)), properties: Vec::new() });
        let intrinsics = Intrinsics {
            object_prototype,
            function_prototype: OrdinaryObject(1),
            temporal_instant: Function(OrdinaryObject(2)),
            temporal_instant_prototype: OrdinaryObject(3),
            temporal_zoned_date_time: Function(OrdinaryObject(4)),
            temporal_zoned_date_time_prototype: OrdinaryObject(5),
        };
        let mut realms: Vec<RealmRecord> = Vec::new();
        realms.push(RealmRecord { intrinsics });
        let agent = Agent {
            heap: Heap { objects, instants: Vec::new(), zoned_date_times: Vec::new(), alloc_counter: 0 },
            realms,
            current_realm: Realm(0),
        };
        assert(agent.heap.objects@[2].properties@[0].value@ == ValueView::Object(OrdinaryObject(3)));
        agent
    }
}

} // verus!
