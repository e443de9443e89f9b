//! The table of types that inference works on.
use crate::error::{CompilationError, ErrorV};
use crate::table::Table;
use crate::types::{c_name, copy_type, type_v, Type, TypeId, TypeV};
use vstd::prelude::*;

verus! {

/// A slot of the table: the slot that represents it, and the type, where it is known.
#[derive(Debug)]
pub struct Slot {
    pub rep: usize,
    pub known: Option<Type>,
}

/// The contents of a slot.
pub struct SlotV {
    pub rep: int,
    pub known: Option<TypeV>,
}

/// The types of a program under inference. Slots that were unified share one representative.
#[derive(Debug)]
pub struct TypeStore {
    slots: Vec<Slot>,
    typedefs: Table<Type>,
}

/// The contents of a table of types.
pub struct StoreV {
    pub slots: Seq<SlotV>,
    pub typedefs: Map<Seq<char>, TypeV>,
}

/// The contents of a slot.
pub open spec fn slot_v(s: Slot) -> SlotV {
    SlotV {
        rep: s.rep as int,
        known: match s.known {
            Some(t) => Some(type_v(t)),
            None => None,
        },
    }
}

/// The contents of a list of slots.
pub open spec fn slots_v(s: Seq<Slot>) -> Seq<SlotV> {
    s.map_values(|x: Slot| slot_v(x))
}

/// The contents of a table of aliases.
pub open spec fn type_map_v(m: Map<Seq<char>, Type>) -> Map<Seq<char>, TypeV> {
    m.map_values(|t: Type| type_v(t))
}

impl View for TypeStore {
    type V = StoreV;

    closed spec fn view(&self) -> StoreV {
        StoreV { slots: slots_v(self.slots@), typedefs: type_map_v(self.typedefs.map()) }
    }
}

/// The representative of a type index; an index without a slot stands for itself.
pub open spec fn rep_in(s: StoreV, id: TypeId) -> int {
    if id.0 < s.slots.len() {
        s.slots[id.0 as int].rep
    } else {
        id.0 as int
    }
}

/// The type that a type index stands for, where it is known.
pub open spec fn known_in(s: StoreV, id: TypeId) -> Option<TypeV> {
    let r = rep_in(s, id);
    if 0 <= r < s.slots.len() {
        s.slots[r].known
    } else {
        None
    }
}

/// Whether a slot is represented by a slot that represents itself.
pub open spec fn slot_represented(s: StoreV, i: int) -> bool {
    0 <= s.slots[i].rep < s.slots.len() && s.slots[s.slots[i].rep].rep == s.slots[i].rep
}

/// Whether every slot is represented by a slot that represents itself.
pub open spec fn well_represented(s: StoreV) -> bool {
    forall|i: int| 0 <= i < s.slots.len() ==> #[trigger] slot_represented(s, i)
}

/// The table with one more slot, which represents itself.
pub open spec fn with_slot(s: StoreV, known: Option<TypeV>) -> StoreV {
    StoreV { slots: s.slots.push(SlotV { rep: s.slots.len() as int, known }), ..s }
}

/// The table in which all that `from` represented is represented by `to`.
pub open spec fn redirected(s: StoreV, from: int, to: int) -> StoreV {
    StoreV {
        slots: s.slots.map_values(|x: SlotV| if x.rep == from { SlotV { rep: to, ..x } } else { x }),
        ..s
    }
}

/// What an alias stands for; any other type stands for itself.
pub open spec fn aliased(s: StoreV, t: TypeV) -> TypeV {
    match t {
        TypeV::Named(n) => if s.typedefs.contains_key(n) {
            s.typedefs[n]
        } else {
            t
        },
        _ => t,
    }
}

/// The integer types.
pub open spec fn is_integer_type(t: TypeV) -> bool {
    t is Int || t is Size || t is Int8 || t is Int16 || t is Int32 || t is Int64 || t is Uint8 || t is Uint16
        || t is Uint32 || t is Uint64
}

/// The floating-point types.
pub open spec fn is_float_type(t: TypeV) -> bool {
    t is Float || t is Float32 || t is Float64
}

/// Pointers, and the strings that are pointers in C.
pub open spec fn is_pointer_type(t: TypeV) -> bool {
    t is Ptr || t is CString
}

/// Pointers to nothing in particular.
pub open spec fn is_void_pointer(t: TypeV) -> bool {
    t is Ptr && *(t->Ptr_0) is Void
}

/// Whether a value of one type can stand for one of the other: types with one C name, two
/// integer types, two floating-point types, and a pointer with a void pointer.
pub open spec fn compatible(a: TypeV, b: TypeV) -> bool {
    ||| c_name(a) == c_name(b)
    ||| is_integer_type(a) && is_integer_type(b)
    ||| is_float_type(a) && is_float_type(b)
    ||| is_pointer_type(a) && is_void_pointer(b)
    ||| is_void_pointer(a) && is_pointer_type(b)
}

/// The table after two type indices were unified, or why they cannot be.
pub open spec fn unified(s: StoreV, a: TypeId, b: TypeId) -> Result<StoreV, ErrorV> {
    let ra = rep_in(s, a);
    let rb = rep_in(s, b);
    if ra == rb {
        Ok(s)
    } else if !(0 <= ra < s.slots.len() && 0 <= rb < s.slots.len()) {
        Err(ErrorV::TypeError("internal error: unknown type variable"@))
    } else {
        match (s.slots[ra].known, s.slots[rb].known) {
            (None, _) => Ok(redirected(s, ra, rb)),
            (_, None) => Ok(redirected(s, rb, ra)),
            (Some(x), Some(y)) => if compatible(aliased(s, x), aliased(s, y)) {
                Ok(s)
            } else {
                Err(ErrorV::TypeError("Type mismatch: "@ + c_name(x) + " vs "@ + c_name(y)))
            },
        }
    }
}

/// The table in which an unknown type became known.
pub open spec fn bound_in(s: StoreV, id: TypeId, t: TypeV) -> StoreV {
    let r = rep_in(s, id);
    if 0 <= r < s.slots.len() && s.slots[r].known is None {
        StoreV { slots: s.slots.update(r, SlotV { known: Some(t), ..s.slots[r] }), ..s }
    } else {
        s
    }
}

/// A table without types.
pub open spec fn no_types() -> StoreV {
    StoreV { slots: Seq::empty(), typedefs: Map::empty() }
}

/// Every operation keeps slots represented by slots that represent themselves.
pub proof fn law_slots_stay_well_represented(s: StoreV, a: TypeId, b: TypeId, t: TypeV, k: Option<TypeV>)
    requires
        well_represented(s),
    ensures
        well_represented(with_slot(s, k)),
        well_represented(bound_in(s, a, t)),
        unified(s, a, b) is Ok ==> well_represented(unified(s, a, b)->Ok_0),
{
    assert(well_represented(with_slot(s, k))) by {
        let w = with_slot(s, k);
        assert forall|i: int| 0 <= i < w.slots.len() implies #[trigger] slot_represented(w, i) by {
            if i < s.slots.len() {
                assert(slot_represented(s, i));
            }
        }
    }
    let ra = rep_in(s, a);
    let rb = rep_in(s, b);
    if a.0 < s.slots.len() {
        assert(slot_represented(s, a.0 as int));
    }
    if b.0 < s.slots.len() {
        assert(slot_represented(s, b.0 as int));
    }
    assert(well_represented(bound_in(s, a, t))) by {
        let w = bound_in(s, a, t);
        assert forall|i: int| 0 <= i < w.slots.len() implies #[trigger] slot_represented(w, i) by {
            assert(slot_represented(s, i));
        }
    }
    if 0 <= ra < s.slots.len() && 0 <= rb < s.slots.len() && ra != rb {
        lemma_redirected(s, ra, rb);
        lemma_redirected(s, rb, ra);
    }
}

proof fn lemma_redirected(s: StoreV, from: int, to: int)
    requires
        well_represented(s),
        0 <= from < s.slots.len(),
        0 <= to < s.slots.len(),
        s.slots[to].rep == to,
        from != to,
    ensures
        well_represented(redirected(s, from, to)),
{
    let w = redirected(s, from, to);
    assert forall|i: int| 0 <= i < w.slots.len() implies #[trigger] slot_represented(w, i) by {
        assert(slot_represented(s, i));
    }
}

/// Two type indices that were unified stand for one type from then on, unless both were known
/// before.
pub proof fn law_unified_indices_agree(s: StoreV, a: TypeId, b: TypeId)
    requires
        well_represented(s),
        unified(s, a, b) is Ok,
        a.0 < s.slots.len(),
        b.0 < s.slots.len(),
        known_in(s, a) is None || known_in(s, b) is None,
    ensures
        rep_in(unified(s, a, b)->Ok_0, a) == rep_in(unified(s, a, b)->Ok_0, b),
        known_in(s, a) is Some ==> known_in(unified(s, a, b)->Ok_0, b) == known_in(s, a),
        known_in(s, b) is Some ==> known_in(unified(s, a, b)->Ok_0, a) == known_in(s, b),
{
    let ra = rep_in(s, a);
    let rb = rep_in(s, b);
    assert(slot_represented(s, a.0 as int));
    assert(slot_represented(s, b.0 as int));
    let w = unified(s, a, b)->Ok_0;
    assert(w.slots.len() == s.slots.len());
    assert(w.slots[a.0 as int].known == s.slots[a.0 as int].known);
    assert(w.slots[ra].known == s.slots[ra].known);
    assert(w.slots[rb].known == s.slots[rb].known);
}

impl Default for TypeStore {
    fn default() -> (r: Self)
        ensures
            r@ == no_types(),
    {
        TypeStore::new()
    }
}

fn is_integer(t: &Type) -> (r: bool)
    ensures
        r == is_integer_type(t@),
{
    matches!(
        t,
        Type::Int | Type::Size | Type::Int8 | Type::Int16 | Type::Int32 | Type::Int64 | Type::Uint8 | Type::Uint16
            | Type::Uint32 | Type::Uint64
    )
}

fn is_float(t: &Type) -> (r: bool)
    ensures
        r == is_float_type(t@),
{
    matches!(t, Type::Float | Type::Float32 | Type::Float64)
}

fn is_pointer(t: &Type) -> (r: bool)
    ensures
        r == is_pointer_type(t@),
{
    matches!(t, Type::Ptr(_) | Type::CString)
}

fn points_to_void(t: &Type) -> (r: bool)
    ensures
        r == is_void_pointer(t@),
{
    proof {
        reveal_with_fuel(type_v, 2);
    }
    match t {
        Type::Ptr(x) => matches!(&**x, Type::Void),
        _ => false,
    }
}

fn fits(a: &Type, b: &Type) -> (r: bool)
    ensures
        r == compatible(a@, b@),
{
    a.to_c_name() == b.to_c_name() || (is_integer(a) && is_integer(b)) || (is_float(a) && is_float(b)) || (is_pointer(a)
        && points_to_void(b)) || (points_to_void(a) && is_pointer(b))
}

impl TypeStore {
    /// A table without types.
    pub fn new() -> (r: Self)
        ensures
            r@ == no_types(),
    {
        let r = TypeStore { slots: Vec::new(), typedefs: Table::new() };
        proof {
            assert(r@.slots =~= no_types().slots);
            assert(r@.typedefs =~= no_types().typedefs);
        }
        r
    }

    /// Adds a known type.
    pub fn new_known(&mut self, t: Type) -> (r: TypeId)
        ensures
            r.0 == old(self)@.slots.len(),
            final(self)@ == with_slot(old(self)@, Some(t@)),
    {
        let ghost before = self.slots@;
        let id: usize = self.slots.len();
        let ghost tv = t@;
        self.slots.push(Slot { rep: id, known: Some(t) });
        proof {
            assert(slots_v(self.slots@) =~= slots_v(before).push(SlotV { rep: id as int, known: Some(tv) }));
        }
        TypeId(id)
    }

    /// Adds an unknown type.
    pub fn new_unknown(&mut self) -> (r: TypeId)
        ensures
            r.0 == old(self)@.slots.len(),
            final(self)@ == with_slot(old(self)@, None),
    {
        let ghost before = self.slots@;
        let id: usize = self.slots.len();
        self.slots.push(Slot { rep: id, known: None });
        proof {
            assert(slots_v(self.slots@) =~= slots_v(before).push(SlotV { rep: id as int, known: None }));
        }
        TypeId(id)
    }

    /// The representative of a type index.
    pub fn find_rep(&self, id: TypeId) -> (r: TypeId)
        ensures
            r.0 == rep_in(self@, id),
    {
        if id.0 < self.slots.len() {
            proof {
                assert(self@.slots[id.0 as int] == slot_v(self.slots@[id.0 as int]));
            }
            TypeId(self.slots[id.0].rep)
        } else {
            id
        }
    }

    /// Whether a type index represents itself and its type is unknown.
    pub fn is_unknown(&self, id: TypeId) -> (r: bool)
        ensures
            r == (id.0 < self@.slots.len() && self@.slots[id.0 as int] == (SlotV {
                rep: id.0 as int,
                known: None,
            })),
    {
        if id.0 < self.slots.len() {
            proof {
                assert(self@.slots[id.0 as int] == slot_v(self.slots@[id.0 as int]));
            }
            self.slots[id.0].rep == id.0 && self.slots[id.0].known.is_none()
        } else {
            false
        }
    }

    /// The type that a type index stands for.
    pub fn resolve(&self, id: TypeId) -> (r: Result<Type, CompilationError>)
        ensures
            match r {
                Ok(t) => known_in(self@, id) == Some(t@),
                Err(e) => known_in(self@, id) is None && e@ == ErrorV::TypeError("unresolved type"@),
            },
    {
        let r = self.find_rep(id);
        if r.0 < self.slots.len() {
            proof {
                assert(self@.slots[r.0 as int] == slot_v(self.slots@[r.0 as int]));
            }
            match &self.slots[r.0].known {
                Some(t) => Ok(copy_type(t)),
                None => Err(CompilationError::TypeError("unresolved type".to_owned())),
            }
        } else {
            Err(CompilationError::TypeError("unresolved type".to_owned()))
        }
    }

    /// Makes the type of an index known, unless it is already.
    pub fn bind_if_unbound(&mut self, id: TypeId, t: Type)
        ensures
            final(self)@ == bound_in(old(self)@, id, t@),
    {
        let r = self.find_rep(id);
        let ghost before = self.slots@;
        if r.0 < self.slots.len() {
            proof {
                assert(self@.slots[r.0 as int] == slot_v(self.slots@[r.0 as int]));
            }
            if self.slots[r.0].known.is_none() {
                let rep: usize = self.slots[r.0].rep;
                let ghost tv = t@;
                self.slots.set(r.0, Slot { rep, known: Some(t) });
                proof {
                    assert(slots_v(self.slots@) =~= slots_v(before).update(
                        r.0 as int,
                        SlotV { rep: rep as int, known: Some(tv) },
                    ));
                }
            }
        }
    }

    /// Registers an alias.
    pub fn register_typedef(&mut self, name: String, t: Type)
        ensures
            final(self)@ == (StoreV { typedefs: old(self)@.typedefs.insert(name@, t@), ..old(self)@ }),
    {
        let ghost before = self.typedefs.map();
        let ghost k = name@;
        let ghost v = t@;
        self.typedefs.insert(name, t);
        proof {
            assert(type_map_v(self.typedefs.map()) =~= type_map_v(before).insert(k, v));
        }
    }

    /// The aliases, in the order in which they were registered first.
    pub fn typedefs(&self) -> (r: &Table<Type>)
        ensures
            type_map_v(r.map()) == self@.typedefs,
    {
        &self.typedefs
    }

    /// The type that an alias stands for.
    pub fn resolve_typedef_type(&self, t: &Type) -> (r: Option<Type>)
        ensures
            match r {
                Some(u) => t@ is Named && self@.typedefs.contains_key(t@->Named_0) && u@
                    == self@.typedefs[t@->Named_0],
                None => !(t@ is Named && self@.typedefs.contains_key(t@->Named_0)),
            },
    {
        match t {
            Type::Named(n) => match self.typedefs.get(n.as_str()) {
                Some(u) => Some(copy_type(u)),
                None => None,
            },
            _ => None,
        }
    }

    fn expand(&self, t: &Type) -> (r: Type)
        ensures
            r@ == aliased(self@, t@),
    {
        match self.resolve_typedef_type(t) {
            Some(u) => u,
            None => copy_type(t),
        }
    }

    fn redirect(&mut self, from: usize, to: usize)
        ensures
            final(self)@ == redirected(old(self)@, from as int, to as int),
    {
        let ghost before = self.slots@;
        let ghost store0 = self@;
        let mut i: usize = 0;
        while i < self.slots.len()
            invariant
                i <= self.slots@.len(),
                self.slots@.len() == before.len(),
                self@.typedefs == store0.typedefs,
                forall|j: int|
                    0 <= j < i ==> slot_v(#[trigger] self.slots@[j]) == (if before[j].rep == from {
                        SlotV { rep: to as int, ..slot_v(before[j]) }
                    } else {
                        slot_v(before[j])
                    }),
                forall|j: int| i <= j < before.len() ==> #[trigger] self.slots@[j] == before[j],
            decreases self.slots@.len() - i,
        {
            if self.slots[i].rep == from {
                let known = match &self.slots[i].known {
                    Some(t) => Some(copy_type(t)),
                    None => None,
                };
                self.slots.set(i, Slot { rep: to, known });
            }
            i = i + 1;
        }
        proof {
            assert(slots_v(self.slots@) =~= redirected(store0, from as int, to as int).slots);
        }
    }

    /// Unifies two type indices.
    pub fn unify(&mut self, a: TypeId, b: TypeId) -> (r: Result<(), CompilationError>)
        ensures
            match r {
                Ok(_) => unified(old(self)@, a, b) == Ok::<StoreV, ErrorV>(final(self)@),
                Err(e) => unified(old(self)@, a, b) == Err::<StoreV, ErrorV>(e@) && final(self)@ == old(self)@,
            },
    {
        let ra = self.find_rep(a);
        let rb = self.find_rep(b);
        if ra.0 == rb.0 {
            return Ok(());
        }
        if ra.0 >= self.slots.len() || rb.0 >= self.slots.len() {
            return Err(CompilationError::TypeError("internal error: unknown type variable".to_owned()));
        }
        proof {
            assert(self@.slots[ra.0 as int] == slot_v(self.slots@[ra.0 as int]));
            assert(self@.slots[rb.0 as int] == slot_v(self.slots@[rb.0 as int]));
        }
        if self.slots[ra.0].known.is_none() {
            self.redirect(ra.0, rb.0);
            return Ok(());
        }
        if self.slots[rb.0].known.is_none() {
            self.redirect(rb.0, ra.0);
            return Ok(());
        }
        match (&self.slots[ra.0].known, &self.slots[rb.0].known) {
            (Some(x), Some(y)) => {
                if fits(&self.expand(x), &self.expand(y)) {
                    Ok(())
                } else {
                    Err(
                        CompilationError::TypeError(
                            "Type mismatch: ".to_owned().concat(x.to_c_name().as_str()).concat(" vs ").concat(
                                y.to_c_name().as_str(),
                            ),
                        ),
                    )
                }
            },
            _ => Ok(()),
        }
    }
}

} // verus!
