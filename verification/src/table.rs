use vstd::prelude::*;

verus! {

use vstd::slice::slice_to_vec;
use crate::error::InvalidName;
use crate::names::{is_valid_name, valid_name};
use crate::strings::StringValue;

/// Bit pattern of the double-precision value of pi, 3.141592653589793.
pub const PI_BITS: u64 = 0x4009_21FB_5444_2D18;

/// Bit pattern of the double-precision machine epsilon,
/// 2.220446049250313e-16.
pub const EPSILON_BITS: u64 = 0x3CB0_0000_0000_0000;

/// Bit pattern of double-precision positive infinity.
pub const INFINITY_BITS: u64 = 0x7FF0_0000_0000_0000;

/// One scalar cell: a registered variable or constant. The cell's value is
/// the bit pattern of one native floating-point word, kept opaque here.
#[derive(Debug)]
pub struct ScalarSlot {
    pub name: String,
    pub bits: u64,
}

/// One registered string variable and its owned buffer.
#[derive(Debug)]
pub struct StringSlot {
    pub name: String,
    pub value: StringValue,
}

/// One registered vector variable: a fixed-length block of scalar words.
#[derive(Debug)]
pub struct VectorSlot {
    pub name: String,
    pub data: Vec<u64>,
}

/// One registered function entry. The callable itself lives behind the
/// native boundary; the table tracks its name and arity so that duplicate
/// checks, counting, clearing and cloning treat all entries uniformly.
#[derive(Debug)]
pub struct FuncSlot {
    pub name: String,
    pub arity: usize,
}

/// The mathematical content of a symbol table: each category as a sequence
/// of (name, content) pairs in registration order, and for each
/// identifier-carrying category the next category-local identifier to be
/// assigned. Identifiers of live slots are the last `len` values below
/// `next`: a category-wide clear retires every identifier assigned so far,
/// and a retired identifier is never assigned again.
#[verifier::ext_equal]
pub struct TableModel {
    pub vars: Seq<(Seq<char>, u64)>,
    pub consts: Seq<(Seq<char>, u64)>,
    pub strings: Seq<(Seq<char>, Seq<u8>)>,
    pub vectors: Seq<(Seq<char>, Seq<u64>)>,
    pub funcs: Seq<(Seq<char>, usize)>,
    pub next_var_id: nat,
    pub next_string_id: nat,
    pub next_vector_id: nat,
}

/// Whether some pair in the sequence bears the given name.
pub open spec fn seq_has_name<T>(s: Seq<(Seq<char>, T)>, name: Seq<char>) -> bool {
    exists|i: int| 0 <= i < s.len() && (#[trigger] s[i]).0 == name
}

/// The index of the pair bearing the given name; meaningful only when the
/// name occurs and the names are distinct.
pub open spec fn seq_name_at<T>(s: Seq<(Seq<char>, T)>, name: Seq<char>) -> int {
    choose|i: int| 0 <= i < s.len() && (#[trigger] s[i]).0 == name
}

/// No two pairs of the sequence bear the same name.
pub open spec fn distinct_names<T>(s: Seq<(Seq<char>, T)>) -> bool {
    forall|i: int, j: int|
        0 <= i < j < s.len() ==> (#[trigger] s[i]).0 != (#[trigger] s[j]).0
}

/// No name occurs in both sequences.
pub open spec fn disjoint_names<T, U>(a: Seq<(Seq<char>, T)>, b: Seq<(Seq<char>, U)>) -> bool {
    forall|i: int, j: int|
        0 <= i < a.len() && 0 <= j < b.len() ==> (#[trigger] a[i]).0 != (#[trigger] b[j]).0
}

impl TableModel {
    /// The name is registered as a (non-constant) variable.
    pub open spec fn has_var(self, name: Seq<char>) -> bool {
        seq_has_name(self.vars, name)
    }

    /// The name is registered as a constant.
    pub open spec fn has_const(self, name: Seq<char>) -> bool {
        seq_has_name(self.consts, name)
    }

    /// The name is registered as a string variable.
    pub open spec fn has_string(self, name: Seq<char>) -> bool {
        seq_has_name(self.strings, name)
    }

    /// The name is registered as a vector variable.
    pub open spec fn has_vector(self, name: Seq<char>) -> bool {
        seq_has_name(self.vectors, name)
    }

    /// The name is registered as a function.
    pub open spec fn has_func(self, name: Seq<char>) -> bool {
        seq_has_name(self.funcs, name)
    }

    /// The name is registered in some category.
    pub open spec fn contains(self, name: Seq<char>) -> bool {
        self.has_var(name) || self.has_const(name) || self.has_string(name)
            || self.has_vector(name) || self.has_func(name)
    }

    /// The smallest live variable identifier.
    pub open spec fn first_var_id(self) -> int {
        self.next_var_id - self.vars.len()
    }

    /// The smallest live string identifier.
    pub open spec fn first_string_id(self) -> int {
        self.next_string_id - self.strings.len()
    }

    /// The smallest live vector identifier.
    pub open spec fn first_vector_id(self) -> int {
        self.next_vector_id - self.vectors.len()
    }

    /// The identifier of a live slot is in the live range of its category.
    pub open spec fn live_var_id(self, id: int) -> bool {
        self.first_var_id() <= id < self.next_var_id
    }

    /// The identifier of a live string slot is in the live range.
    pub open spec fn live_string_id(self, id: int) -> bool {
        self.first_string_id() <= id < self.next_string_id
    }

    /// The identifier of a live vector slot is in the live range.
    pub open spec fn live_vector_id(self, id: int) -> bool {
        self.first_vector_id() <= id < self.next_vector_id
    }

    /// The value bits of the live variable with the given identifier.
    pub open spec fn var_value(self, id: int) -> u64 {
        self.vars[id - self.first_var_id()].1
    }

    /// The value bits of the variable or constant bearing the given name;
    /// meaningful only when one of the two scalar categories has it.
    pub open spec fn scalar_value_of(self, name: Seq<char>) -> u64 {
        if self.has_var(name) {
            self.vars[seq_name_at(self.vars, name)].1
        } else {
            self.consts[seq_name_at(self.consts, name)].1
        }
    }

    /// The identifier held by the live variable bearing the given name.
    pub open spec fn var_id_of(self, name: Seq<char>) -> int {
        self.first_var_id() + seq_name_at(self.vars, name)
    }

    /// The identifier held by the live string slot bearing the given name.
    pub open spec fn string_id_of(self, name: Seq<char>) -> int {
        self.first_string_id() + seq_name_at(self.strings, name)
    }

    /// The identifier held by the live vector slot bearing the given name.
    pub open spec fn vector_id_of(self, name: Seq<char>) -> int {
        self.first_vector_id() + seq_name_at(self.vectors, name)
    }

    /// Well-formedness: every registered name is registered exactly once,
    /// across all categories, and no category has assigned more identifiers
    /// than it has retired or kept.
    pub open spec fn wf(self) -> bool {
        &&& distinct_names(self.vars)
        &&& distinct_names(self.consts)
        &&& distinct_names(self.strings)
        &&& distinct_names(self.vectors)
        &&& distinct_names(self.funcs)
        &&& disjoint_names(self.vars, self.consts)
        &&& disjoint_names(self.vars, self.strings)
        &&& disjoint_names(self.vars, self.vectors)
        &&& disjoint_names(self.vars, self.funcs)
        &&& disjoint_names(self.consts, self.strings)
        &&& disjoint_names(self.consts, self.vectors)
        &&& disjoint_names(self.consts, self.funcs)
        &&& disjoint_names(self.strings, self.vectors)
        &&& disjoint_names(self.strings, self.funcs)
        &&& disjoint_names(self.vectors, self.funcs)
        &&& self.vars.len() <= self.next_var_id
        &&& self.strings.len() <= self.next_string_id
        &&& self.vectors.len() <= self.next_vector_id
        &&& self.next_var_id <= usize::MAX
        &&& self.next_string_id <= usize::MAX
        &&& self.next_vector_id <= usize::MAX
    }

    /// The table with every scalar slot dropped and every variable
    /// identifier assigned so far retired.
    pub open spec fn with_scalars_cleared(self) -> TableModel {
        TableModel { vars: Seq::empty(), consts: Seq::empty(), ..self }
    }

    /// The table after one well-known constant is registered: unchanged
    /// when the name is already present, otherwise with the constant
    /// appended.
    pub open spec fn with_const_added(self, name: Seq<char>, bits: u64) -> TableModel {
        if self.contains(name) {
            self
        } else {
            TableModel { consts: self.consts.push((name, bits)), ..self }
        }
    }

    /// The table after the three well-known constants are registered in
    /// order, stopping at the first name already present.
    pub open spec fn with_well_known_constants(self) -> TableModel {
        if self.contains("pi"@) {
            self
        } else {
            let m1 = self.with_const_added("pi"@, PI_BITS);
            if m1.contains("epsilon"@) {
                m1
            } else {
                let m2 = m1.with_const_added("epsilon"@, EPSILON_BITS);
                if m2.contains("inf"@) {
                    m2
                } else {
                    m2.with_const_added("inf"@, INFINITY_BITS)
                }
            }
        }
    }

    /// The empty table.
    pub open spec fn empty() -> TableModel {
        TableModel {
            vars: Seq::empty(),
            consts: Seq::empty(),
            strings: Seq::empty(),
            vectors: Seq::empty(),
            funcs: Seq::empty(),
            next_var_id: 0,
            next_string_id: 0,
            next_vector_id: 0,
        }
    }
}

/// Appending a pair that bears one name leaves the presence of every
/// other name unchanged.
pub proof fn lemma_has_name_push<T>(s: Seq<(Seq<char>, T)>, p: (Seq<char>, T), name: Seq<char>)
    requires
        p.0 != name,
    ensures
        seq_has_name(s.push(p), name) == seq_has_name(s, name),
{
    if seq_has_name(s, name) {
        let i = choose|i: int| 0 <= i < s.len() && (#[trigger] s[i]).0 == name;
        assert(s.push(p)[i].0 == name);
    }
    if seq_has_name(s.push(p), name) {
        let i = choose|i: int| 0 <= i < s.push(p).len() && (#[trigger] s.push(p)[i]).0 == name;
        if i < s.len() {
            assert(s[i].0 == name);
        } else {
            assert(s.push(p)[i].0 == p.0);
        }
    }
}

/// Law: a registration is visible. Appending a slot bearing a name to any
/// of the five categories yields a table that contains the name. By the
/// registration contracts, a second registration of the same valid name
/// therefore returns the already-present signal (`Ok(None)` or
/// `Ok(false)`), never an error, and leaves the table unchanged.
pub proof fn lemma_registration_is_visible(
    m: TableModel,
    name: Seq<char>,
    bits: u64,
    text: Seq<u8>,
    values: Seq<u64>,
    arity: usize,
)
    ensures
        (TableModel {
            vars: m.vars.push((name, bits)),
            next_var_id: m.next_var_id + 1,
            ..m
        }).contains(name),
        (TableModel { consts: m.consts.push((name, bits)), ..m }).contains(name),
        (TableModel {
            strings: m.strings.push((name, text)),
            next_string_id: m.next_string_id + 1,
            ..m
        }).contains(name),
        (TableModel {
            vectors: m.vectors.push((name, values)),
            next_vector_id: m.next_vector_id + 1,
            ..m
        }).contains(name),
        (TableModel { funcs: m.funcs.push((name, arity)), ..m }).contains(name),
{
    assert(m.vars.push((name, bits))[m.vars.len() as int].0 == name);
    assert(m.consts.push((name, bits))[m.consts.len() as int].0 == name);
    assert(m.strings.push((name, text))[m.strings.len() as int].0 == name);
    assert(m.vectors.push((name, values))[m.vectors.len() as int].0 == name);
    assert(m.funcs.push((name, arity))[m.funcs.len() as int].0 == name);
}

/// Law: an identifier obtained by name lookup is usable. In a
/// well-formed table that has a variable under the name, the identifier
/// `var_id_of` denotes is live, and the cell it denotes holds the value
/// of the slot bearing that name.
pub proof fn lemma_lookup_id_reads_back(m: TableModel, name: Seq<char>)
    requires
        m.wf(),
        m.has_var(name),
    ensures
        m.live_var_id(m.var_id_of(name)),
        m.var_value(m.var_id_of(name)) == m.vars[seq_name_at(m.vars, name)].1,
        m.vars[seq_name_at(m.vars, name)].0 == name,
{
    let i = seq_name_at(m.vars, name);
    assert(0 <= i < m.vars.len() && m.vars[i].0 == name);
}

/// Law: the identifier returned by a registration is usable. In the
/// table a registration leaves behind, the fresh identifier is live and
/// the cell it denotes holds the registered value.
pub proof fn lemma_fresh_id_reads_back(m: TableModel, name: Seq<char>, bits: u64)
    ensures
        ({
            let m2 = TableModel {
                vars: m.vars.push((name, bits)),
                next_var_id: m.next_var_id + 1,
                ..m
            };
            m2.live_var_id(m.next_var_id as int) && m2.var_value(m.next_var_id as int) == bits
        }),
{
}

/// Law: clearing the scalar category is idempotent. A second clear acts
/// on an already-empty category and yields the same table, and the scalar
/// count is zero after either clear.
pub proof fn lemma_clear_variables_idempotent(m: TableModel)
    ensures
        m.with_scalars_cleared().with_scalars_cleared() == m.with_scalars_cleared(),
        m.with_scalars_cleared().vars.len() + m.with_scalars_cleared().consts.len() == 0,
{
    assert(m.with_scalars_cleared().with_scalars_cleared() =~= m.with_scalars_cleared());
}

/// In a sequence of distinct names, an index bearing a name is the index
/// that `seq_name_at` denotes.
pub proof fn lemma_name_at_unique<T>(s: Seq<(Seq<char>, T)>, name: Seq<char>, i: int)
    requires
        distinct_names(s),
        0 <= i < s.len(),
        s[i].0 == name,
    ensures
        seq_has_name(s, name),
        seq_name_at(s, name) == i,
{
    assert(seq_has_name(s, name));
    let j = seq_name_at(s, name);
    assert(0 <= j < s.len() && s[j].0 == name);
    if i < j {
        assert(s[i].0 != s[j].0);
    }
    if j < i {
        assert(s[j].0 != s[i].0);
    }
}

/// The symbol table: the managed registry of variables, constants, string
/// variables, vector variables and function entries, each category with
/// 0-based identifiers assigned at insertion, stable for the table's
/// lifetime and never reused after a category-wide clear.
#[derive(Debug)]
pub struct SymbolTable {
    vars: Vec<ScalarSlot>,
    consts: Vec<ScalarSlot>,
    strings: Vec<StringSlot>,
    vectors: Vec<VectorSlot>,
    funcs: Vec<FuncSlot>,
    next_var_id: usize,
    next_string_id: usize,
    next_vector_id: usize,
}

impl View for SymbolTable {
    type V = TableModel;

    closed spec fn view(&self) -> TableModel {
        TableModel {
            vars: self.vars@.map_values(|s: ScalarSlot| (s.name@, s.bits)),
            consts: self.consts@.map_values(|s: ScalarSlot| (s.name@, s.bits)),
            strings: self.strings@.map_values(|s: StringSlot| (s.name@, s.value@)),
            vectors: self.vectors@.map_values(|s: VectorSlot| (s.name@, s.data@)),
            funcs: self.funcs@.map_values(|s: FuncSlot| (s.name@, s.arity)),
            next_var_id: self.next_var_id as nat,
            next_string_id: self.next_string_id as nat,
            next_vector_id: self.next_vector_id as nat,
        }
    }
}

/// The index of the scalar slot bearing the given name, if any.
fn find_scalar(v: &Vec<ScalarSlot>, key: &String) -> (r: Option<usize>)
    ensures
        match r {
            Some(i) => 0 <= i < v@.len() && v@[i as int].name@ == key@,
            None => forall|i: int| 0 <= i < v@.len() ==> (#[trigger] v@[i]).name@ != key@,
        },
{
    let mut i: usize = 0;
    while i < v.len()
        invariant
            0 <= i <= v@.len(),
            forall|j: int| 0 <= j < i ==> (#[trigger] v@[j]).name@ != key@,
        decreases v@.len() - i,
    {
        if v[i].name == *key {
            return Some(i);
        }
        i += 1;
    }
    None
}

/// The index of the string slot bearing the given name, if any.
fn find_string(v: &Vec<StringSlot>, key: &String) -> (r: Option<usize>)
    ensures
        match r {
            Some(i) => 0 <= i < v@.len() && v@[i as int].name@ == key@,
            None => forall|i: int| 0 <= i < v@.len() ==> (#[trigger] v@[i]).name@ != key@,
        },
{
    let mut i: usize = 0;
    while i < v.len()
        invariant
            0 <= i <= v@.len(),
            forall|j: int| 0 <= j < i ==> (#[trigger] v@[j]).name@ != key@,
        decreases v@.len() - i,
    {
        if v[i].name == *key {
            return Some(i);
        }
        i += 1;
    }
    None
}

/// The index of the vector slot bearing the given name, if any.
fn find_vector(v: &Vec<VectorSlot>, key: &String) -> (r: Option<usize>)
    ensures
        match r {
            Some(i) => 0 <= i < v@.len() && v@[i as int].name@ == key@,
            None => forall|i: int| 0 <= i < v@.len() ==> (#[trigger] v@[i]).name@ != key@,
        },
{
    let mut i: usize = 0;
    while i < v.len()
        invariant
            0 <= i <= v@.len(),
            forall|j: int| 0 <= j < i ==> (#[trigger] v@[j]).name@ != key@,
        decreases v@.len() - i,
    {
        if v[i].name == *key {
            return Some(i);
        }
        i += 1;
    }
    None
}

/// The index of the function entry bearing the given name, if any.
fn find_func(v: &Vec<FuncSlot>, key: &String) -> (r: Option<usize>)
    ensures
        match r {
            Some(i) => 0 <= i < v@.len() && v@[i as int].name@ == key@,
            None => forall|i: int| 0 <= i < v@.len() ==> (#[trigger] v@[i]).name@ != key@,
        },
{
    let mut i: usize = 0;
    while i < v.len()
        invariant
            0 <= i <= v@.len(),
            forall|j: int| 0 <= j < i ==> (#[trigger] v@[j]).name@ != key@,
        decreases v@.len() - i,
    {
        if v[i].name == *key {
            return Some(i);
        }
        i += 1;
    }
    None
}

impl SymbolTable {
    /// Whether the table is well-formed. Constructors establish this and
    /// every method preserves it.
    pub open spec fn wf(&self) -> bool {
        self@.wf()
    }

    /// A fresh, empty table.
    pub fn new() -> (r: SymbolTable)
        ensures
            r.wf(),
            r@ == TableModel::empty(),
    {
        let r = SymbolTable {
            vars: Vec::new(),
            consts: Vec::new(),
            strings: Vec::new(),
            vectors: Vec::new(),
            funcs: Vec::new(),
            next_var_id: 0,
            next_string_id: 0,
            next_vector_id: 0,
        };
        proof {
            assert(r@ =~= TableModel::empty());
        }
        r
    }

    /// Whether the given (already owned) name is registered in some
    /// category.
    fn contains_key(&self, key: &String) -> (r: bool)
        ensures
            r == self@.contains(key@),
    {
        if let Some(i) = find_scalar(&self.vars, key) {
            proof {
                assert(self@.vars[i as int].0 == key@);
            }
            return true;
        }
        if let Some(i) = find_scalar(&self.consts, key) {
            proof {
                assert(self@.consts[i as int].0 == key@);
            }
            return true;
        }
        if let Some(i) = find_string(&self.strings, key) {
            proof {
                assert(self@.strings[i as int].0 == key@);
            }
            return true;
        }
        if let Some(i) = find_vector(&self.vectors, key) {
            proof {
                assert(self@.vectors[i as int].0 == key@);
            }
            return true;
        }
        if let Some(i) = find_func(&self.funcs, key) {
            proof {
                assert(self@.funcs[i as int].0 == key@);
            }
            return true;
        }
        proof {
            assert forall|i: int| 0 <= i < self@.vars.len() implies (
            #[trigger] self@.vars[i]).0 != key@ by {
                assert(self.vars@[i].name@ != key@);
            }
            assert forall|i: int| 0 <= i < self@.consts.len() implies (
            #[trigger] self@.consts[i]).0 != key@ by {
                assert(self.consts@[i].name@ != key@);
            }
            assert forall|i: int| 0 <= i < self@.strings.len() implies (
            #[trigger] self@.strings[i]).0 != key@ by {
                assert(self.strings@[i].name@ != key@);
            }
            assert forall|i: int| 0 <= i < self@.vectors.len() implies (
            #[trigger] self@.vectors[i]).0 != key@ by {
                assert(self.vectors@[i].name@ != key@);
            }
            assert forall|i: int| 0 <= i < self@.funcs.len() implies (
            #[trigger] self@.funcs[i]).0 != key@ by {
                assert(self.funcs@[i].name@ != key@);
            }
        }
        false
    }

    /// Whether a name is registered in some category. The name is
    /// validated first and rejected without consulting the table when it
    /// contains a null byte or a non-ASCII byte.
    pub fn symbol_exists(&self, name: &str) -> (r: Result<bool, InvalidName>)
        ensures
            match r {
                Ok(b) => valid_name(name@) && b == self@.contains(name@),
                Err(e) => !valid_name(name@) && e.0@ == name@,
            },
    {
        if !is_valid_name(name) {
            return Err(InvalidName(name.to_owned()));
        }
        let key: String = name.to_owned();
        Ok(self.contains_key(&key))
    }

    /// Registers a new variable with the given initial value bits. Returns
    /// the fresh category-local identifier, `None` when the (valid) name
    /// is already registered in any category, and the rejected name when
    /// it contains a null byte or a non-ASCII byte; only in the first case
    /// is the table changed.
    pub fn add_variable(&mut self, name: &str, value: u64) -> (r: Result<
        Option<usize>,
        InvalidName,
    >)
        requires
            old(self).wf(),
            old(self)@.next_var_id < usize::MAX,
        ensures
            final(self).wf(),
            match r {
                Err(e) => !valid_name(name@) && e.0@ == name@ && final(self)@ == old(self)@,
                Ok(None) => valid_name(name@) && old(self)@.contains(name@) && final(self)@
                    == old(self)@,
                Ok(Some(id)) => {
                    &&& valid_name(name@)
                    &&& !old(self)@.contains(name@)
                    &&& id == old(self)@.next_var_id
                    &&& final(self)@ == TableModel {
                        vars: old(self)@.vars.push((name@, value)),
                        next_var_id: old(self)@.next_var_id + 1,
                        ..old(self)@
                    }
                },
            },
    {
        if !is_valid_name(name) {
            return Err(InvalidName(name.to_owned()));
        }
        let key: String = name.to_owned();
        if self.contains_key(&key) {
            return Ok(None);
        }
        let id = self.next_var_id;
        self.vars.push(ScalarSlot { name: key, bits: value });
        self.next_var_id = id + 1;
        proof {
            let f = |s: ScalarSlot| (s.name@, s.bits);
            assert(self.vars@.map_values(f) =~= old(self).vars@.map_values(f).push(
                (name@, value),
            ));
            assert(self@ =~= TableModel {
                vars: old(self)@.vars.push((name@, value)),
                next_var_id: old(self)@.next_var_id + 1,
                ..old(self)@
            });
        }
        Ok(Some(id))
    }

    /// Registers a new constant with the given value bits. Returns `true`
    /// when the constant was added, `false` when the (valid) name is
    /// already registered in any category, and the rejected name when it
    /// contains a null byte or a non-ASCII byte; only in the first case is
    /// the table changed.
    pub fn add_constant(&mut self, name: &str, value: u64) -> (r: Result<bool, InvalidName>)
        requires
            old(self).wf(),
        ensures
            final(self).wf(),
            match r {
                Err(e) => !valid_name(name@) && e.0@ == name@ && final(self)@ == old(self)@,
                Ok(false) => valid_name(name@) && old(self)@.contains(name@) && final(self)@
                    == old(self)@,
                Ok(true) => {
                    &&& valid_name(name@)
                    &&& !old(self)@.contains(name@)
                    &&& final(self)@ == TableModel {
                        consts: old(self)@.consts.push((name@, value)),
                        ..old(self)@
                    }
                },
            },
    {
        if !is_valid_name(name) {
            return Err(InvalidName(name.to_owned()));
        }
        let key: String = name.to_owned();
        if self.contains_key(&key) {
            return Ok(false);
        }
        self.consts.push(ScalarSlot { name: key, bits: value });
        proof {
            let f = |s: ScalarSlot| (s.name@, s.bits);
            assert(self.consts@.map_values(f) =~= old(self).consts@.map_values(f).push(
                (name@, value),
            ));
            assert(self@ =~= TableModel {
                consts: old(self)@.consts.push((name@, value)),
                ..old(self)@
            });
        }
        Ok(true)
    }

    /// Registers a new string variable holding a copy of the given bytes.
    /// Returns the fresh category-local identifier, `None` when the
    /// (valid) name is already registered in any category, and the
    /// rejected name when it contains a null byte or a non-ASCII byte;
    /// only in the first case is the table changed.
    pub fn add_stringvar(&mut self, name: &str, text: &[u8]) -> (r: Result<
        Option<usize>,
        InvalidName,
    >)
        requires
            old(self).wf(),
            old(self)@.next_string_id < usize::MAX,
        ensures
            final(self).wf(),
            match r {
                Err(e) => !valid_name(name@) && e.0@ == name@ && final(self)@ == old(self)@,
                Ok(None) => valid_name(name@) && old(self)@.contains(name@) && final(self)@
                    == old(self)@,
                Ok(Some(id)) => {
                    &&& valid_name(name@)
                    &&& !old(self)@.contains(name@)
                    &&& id == old(self)@.next_string_id
                    &&& final(self)@ == TableModel {
                        strings: old(self)@.strings.push((name@, text@)),
                        next_string_id: old(self)@.next_string_id + 1,
                        ..old(self)@
                    }
                },
            },
    {
        if !is_valid_name(name) {
            return Err(InvalidName(name.to_owned()));
        }
        let key: String = name.to_owned();
        if self.contains_key(&key) {
            return Ok(None);
        }
        let id = self.next_string_id;
        self.strings.push(StringSlot { name: key, value: StringValue::new(text) });
        self.next_string_id = id + 1;
        proof {
            let f = |s: StringSlot| (s.name@, s.value@);
            assert(self.strings@.map_values(f) =~= old(self).strings@.map_values(f).push(
                (name@, text@),
            ));
            assert(self@ =~= TableModel {
                strings: old(self)@.strings.push((name@, text@)),
                next_string_id: old(self)@.next_string_id + 1,
                ..old(self)@
            });
        }
        Ok(Some(id))
    }

    /// Registers a new vector variable holding a copy of the given values.
    /// The length is fixed at registration. Returns the fresh
    /// category-local identifier, `None` when the (valid) name is already
    /// registered in any category, and the rejected name when it contains
    /// a null byte or a non-ASCII byte; only in the first case is the
    /// table changed.
    pub fn add_vector(&mut self, name: &str, values: &[u64]) -> (r: Result<
        Option<usize>,
        InvalidName,
    >)
        requires
            old(self).wf(),
            old(self)@.next_vector_id < usize::MAX,
        ensures
            final(self).wf(),
            match r {
                Err(e) => !valid_name(name@) && e.0@ == name@ && final(self)@ == old(self)@,
                Ok(None) => valid_name(name@) && old(self)@.contains(name@) && final(self)@
                    == old(self)@,
                Ok(Some(id)) => {
                    &&& valid_name(name@)
                    &&& !old(self)@.contains(name@)
                    &&& id == old(self)@.next_vector_id
                    &&& final(self)@ == TableModel {
                        vectors: old(self)@.vectors.push((name@, values@)),
                        next_vector_id: old(self)@.next_vector_id + 1,
                        ..old(self)@
                    }
                },
            },
    {
        if !is_valid_name(name) {
            return Err(InvalidName(name.to_owned()));
        }
        let key: String = name.to_owned();
        if self.contains_key(&key) {
            return Ok(None);
        }
        let id = self.next_vector_id;
        self.vectors.push(VectorSlot { name: key, data: slice_to_vec(values) });
        self.next_vector_id = id + 1;
        proof {
            let f = |s: VectorSlot| (s.name@, s.data@);
            assert(self.vectors@.map_values(f) =~= old(self).vectors@.map_values(f).push(
                (name@, values@),
            ));
            assert(self@ =~= TableModel {
                vectors: old(self)@.vectors.push((name@, values@)),
                next_vector_id: old(self)@.next_vector_id + 1,
                ..old(self)@
            });
        }
        Ok(Some(id))
    }

    /// Records a new function entry of the given arity. The callable
    /// itself is registered with the native layer outside this crate; the
    /// table keeps the name and arity so that duplicate checks, counts,
    /// clearing and cloning cover functions like every other category.
    /// Returns `true` when the entry was added, `false` when the (valid)
    /// name is already registered in any category, and the rejected name
    /// when it contains a null byte or a non-ASCII byte; only in the first
    /// case is the table changed.
    pub fn add_function(&mut self, name: &str, arity: usize) -> (r: Result<bool, InvalidName>)
        requires
            old(self).wf(),
            1 <= arity <= 10,
        ensures
            final(self).wf(),
            match r {
                Err(e) => !valid_name(name@) && e.0@ == name@ && final(self)@ == old(self)@,
                Ok(false) => valid_name(name@) && old(self)@.contains(name@) && final(self)@
                    == old(self)@,
                Ok(true) => {
                    &&& valid_name(name@)
                    &&& !old(self)@.contains(name@)
                    &&& final(self)@ == TableModel {
                        funcs: old(self)@.funcs.push((name@, arity)),
                        ..old(self)@
                    }
                },
            },
    {
        if !is_valid_name(name) {
            return Err(InvalidName(name.to_owned()));
        }
        let key: String = name.to_owned();
        if self.contains_key(&key) {
            return Ok(false);
        }
        self.funcs.push(FuncSlot { name: key, arity });
        proof {
            let f = |s: FuncSlot| (s.name@, s.arity);
            assert(self.funcs@.map_values(f) =~= old(self).funcs@.map_values(f).push(
                (name@, arity),
            ));
            assert(self@ =~= TableModel {
                funcs: old(self)@.funcs.push((name@, arity)),
                ..old(self)@
            });
        }
        Ok(true)
    }

    /// The value bits of a variable, by its identifier. Identifiers are
    /// only ever obtained from successful registration or lookup, so an
    /// identifier outside the live range is a caller error, excluded here
    /// rather than reported.
    pub fn value(&self, var_id: usize) -> (r: u64)
        requires
            self.wf(),
            self@.live_var_id(var_id as int),
        ensures
            r == self@.var_value(var_id as int),
    {
        let first = self.next_var_id - self.vars.len();
        let idx = var_id - first;
        proof {
            assert(self@.vars[idx as int].1 == self.vars@[idx as int].bits);
        }
        self.vars[idx].bits
    }

    /// Stores new value bits in a variable's cell, by its identifier.
    /// Only the one cell changes: every name, every other slot and every
    /// identifier stays as it was.
    pub fn set_value(&mut self, var_id: usize, value: u64)
        requires
            old(self).wf(),
            old(self)@.live_var_id(var_id as int),
        ensures
            final(self).wf(),
            final(self)@ == (TableModel {
                vars: old(self)@.vars.update(
                    var_id - old(self)@.first_var_id(),
                    (old(self)@.vars[var_id - old(self)@.first_var_id()].0, value),
                ),
                ..old(self)@
            }),
    {
        let first = self.next_var_id - self.vars.len();
        let idx = var_id - first;
        proof {
            assert(self@.vars[idx as int] == (self.vars@[idx as int].name@, self.vars@[
                idx as int
            ].bits));
        }
        self.vars[idx].bits = value;
        proof {
            let target = TableModel {
                vars: old(self)@.vars.update(
                    var_id - old(self)@.first_var_id(),
                    (old(self)@.vars[var_id - old(self)@.first_var_id()].0, value),
                ),
                ..old(self)@
            };
            assert(self@ =~= target);
            assert forall|i: int, j: int|
                0 <= i < j < self@.vars.len() implies (#[trigger] self@.vars[i]).0 != (
            #[trigger] self@.vars[j]).0 by {
                assert(old(self)@.vars[i].0 != old(self)@.vars[j].0);
                assert(self@.vars[i].0 == old(self)@.vars[i].0);
                assert(self@.vars[j].0 == old(self)@.vars[j].0);
            }
            assert forall|i: int, j: int|
                0 <= i < self@.vars.len() && 0 <= j < self@.consts.len() implies (
            #[trigger] self@.vars[i]).0 != (#[trigger] self@.consts[j]).0 by {
                assert(self@.vars[i].0 == old(self)@.vars[i].0);
            }
            assert forall|i: int, j: int|
                0 <= i < self@.vars.len() && 0 <= j < self@.strings.len() implies (
            #[trigger] self@.vars[i]).0 != (#[trigger] self@.strings[j]).0 by {
                assert(self@.vars[i].0 == old(self)@.vars[i].0);
            }
            assert forall|i: int, j: int|
                0 <= i < self@.vars.len() && 0 <= j < self@.vectors.len() implies (
            #[trigger] self@.vars[i]).0 != (#[trigger] self@.vectors[j]).0 by {
                assert(self@.vars[i].0 == old(self)@.vars[i].0);
            }
            assert forall|i: int, j: int|
                0 <= i < self@.vars.len() && 0 <= j < self@.funcs.len() implies (
            #[trigger] self@.vars[i]).0 != (#[trigger] self@.funcs[j]).0 by {
                assert(self@.vars[i].0 == old(self)@.vars[i].0);
            }
        }
    }

    /// The value bits of a variable or constant, by name. The name is
    /// validated first; a valid name that is registered in neither scalar
    /// category is a caller error, excluded here rather than reported.
    pub fn value_from_name(&self, name: &str) -> (r: Result<u64, InvalidName>)
        requires
            self.wf(),
            valid_name(name@) ==> self@.has_var(name@) || self@.has_const(name@),
        ensures
            match r {
                Ok(v) => valid_name(name@) && v == self@.scalar_value_of(name@),
                Err(e) => !valid_name(name@) && e.0@ == name@,
            },
    {
        if !is_valid_name(name) {
            return Err(InvalidName(name.to_owned()));
        }
        let key: String = name.to_owned();
        if let Some(i) = find_scalar(&self.vars, &key) {
            proof {
                assert(self@.vars[i as int].0 == key@);
                assert(self@.vars[i as int].1 == self.vars@[i as int].bits);
                lemma_name_at_unique(self@.vars, key@, i as int);
            }
            return Ok(self.vars[i].bits);
        }
        if let Some(i) = find_scalar(&self.consts, &key) {
            proof {
                assert forall|j: int| 0 <= j < self@.vars.len() implies (
                #[trigger] self@.vars[j]).0 != key@ by {
                    assert(self.vars@[j].name@ != key@);
                }
                assert(self@.consts[i as int].0 == key@);
                assert(self@.consts[i as int].1 == self.consts@[i as int].bits);
                lemma_name_at_unique(self@.consts, key@, i as int);
            }
            return Ok(self.consts[i].bits);
        }
        proof {
            assert forall|j: int| 0 <= j < self@.vars.len() implies (
            #[trigger] self@.vars[j]).0 != key@ by {
                assert(self.vars@[j].name@ != key@);
            }
            assert forall|j: int| 0 <= j < self@.consts.len() implies (
            #[trigger] self@.consts[j]).0 != key@ by {
                assert(self.consts@[j].name@ != key@);
            }
            assert(false);
        }
        Err(InvalidName(name.to_owned()))
    }

    /// A view of a live string slot's buffer, by its identifier; nothing
    /// for an identifier that is retired or not yet assigned.
    pub fn string(&self, string_id: usize) -> (r: Option<&StringValue>)
        requires
            self.wf(),
        ensures
            match r {
                Some(s) => self@.live_string_id(string_id as int) && s@ == self@.strings[
                    string_id - self@.first_string_id()
                ].1,
                None => !self@.live_string_id(string_id as int),
            },
    {
        let first = self.next_string_id - self.strings.len();
        if string_id < first || string_id >= self.next_string_id {
            return None;
        }
        let idx = string_id - first;
        proof {
            assert(self@.strings[idx as int].1 == self.strings@[idx as int].value@);
        }
        Some(&self.strings[idx].value)
    }

    /// Replaces the contents of a live string slot with a copy of the
    /// given bytes, reporting whether the identifier was live; nothing
    /// else changes.
    pub fn set_string(&mut self, string_id: usize, text: &[u8]) -> (r: bool)
        requires
            old(self).wf(),
        ensures
            final(self).wf(),
            r == old(self)@.live_string_id(string_id as int),
            r ==> final(self)@ == (TableModel {
                strings: old(self)@.strings.update(
                    string_id - old(self)@.first_string_id(),
                    (old(self)@.strings[string_id - old(self)@.first_string_id()].0, text@),
                ),
                ..old(self)@
            }),
            !r ==> final(self)@ == old(self)@,
    {
        let first = self.next_string_id - self.strings.len();
        if string_id < first || string_id >= self.next_string_id {
            return false;
        }
        let idx = string_id - first;
        proof {
            assert(self@.strings[idx as int] == (self.strings@[idx as int].name@, self.strings@[
                idx as int
            ].value@));
        }
        self.strings[idx].value.set(text);
        proof {
            let target = TableModel {
                strings: old(self)@.strings.update(
                    string_id - old(self)@.first_string_id(),
                    (old(self)@.strings[string_id - old(self)@.first_string_id()].0, text@),
                ),
                ..old(self)@
            };
            assert(self@ =~= target);
            assert forall|i: int, j: int|
                0 <= i < j < self@.strings.len() implies (#[trigger] self@.strings[i]).0 != (
            #[trigger] self@.strings[j]).0 by {
                assert(self@.strings[i].0 == old(self)@.strings[i].0);
                assert(self@.strings[j].0 == old(self)@.strings[j].0);
            }
            assert forall|i: int, j: int|
                0 <= i < self@.vars.len() && 0 <= j < self@.strings.len() implies (
            #[trigger] self@.vars[i]).0 != (#[trigger] self@.strings[j]).0 by {
                assert(self@.strings[j].0 == old(self)@.strings[j].0);
            }
            assert forall|i: int, j: int|
                0 <= i < self@.consts.len() && 0 <= j < self@.strings.len() implies (
            #[trigger] self@.consts[i]).0 != (#[trigger] self@.strings[j]).0 by {
                assert(self@.strings[j].0 == old(self)@.strings[j].0);
            }
            assert forall|i: int, j: int|
                0 <= i < self@.strings.len() && 0 <= j < self@.vectors.len() implies (
            #[trigger] self@.strings[i]).0 != (#[trigger] self@.vectors[j]).0 by {
                assert(self@.strings[i].0 == old(self)@.strings[i].0);
            }
            assert forall|i: int, j: int|
                0 <= i < self@.strings.len() && 0 <= j < self@.funcs.len() implies (
            #[trigger] self@.strings[i]).0 != (#[trigger] self@.funcs[j]).0 by {
                assert(self@.strings[i].0 == old(self)@.strings[i].0);
            }
        }
        true
    }

    /// A view of a live vector slot's values, by its identifier; nothing
    /// for an identifier that is retired or not yet assigned.
    pub fn vector(&self, vec_id: usize) -> (r: Option<&Vec<u64>>)
        requires
            self.wf(),
        ensures
            match r {
                Some(v) => self@.live_vector_id(vec_id as int) && v@ == self@.vectors[
                    vec_id - self@.first_vector_id()
                ].1,
                None => !self@.live_vector_id(vec_id as int),
            },
    {
        let first = self.next_vector_id - self.vectors.len();
        if vec_id < first || vec_id >= self.next_vector_id {
            return None;
        }
        let idx = vec_id - first;
        proof {
            assert(self@.vectors[idx as int].1 == self.vectors@[idx as int].data@);
        }
        Some(&self.vectors[idx].data)
    }

    /// Stores new value bits in one element of a live vector slot. The
    /// vector's length is fixed at registration, so the element index must
    /// be within it; only the one element changes.
    pub fn set_vector_value(&mut self, vec_id: usize, index: usize, value: u64)
        requires
            old(self).wf(),
            old(self)@.live_vector_id(vec_id as int),
            index < old(self)@.vectors[vec_id - old(self)@.first_vector_id()].1.len(),
        ensures
            final(self).wf(),
            final(self)@ == (TableModel {
                vectors: old(self)@.vectors.update(
                    vec_id - old(self)@.first_vector_id(),
                    (
                        old(self)@.vectors[vec_id - old(self)@.first_vector_id()].0,
                        old(self)@.vectors[vec_id - old(self)@.first_vector_id()].1.update(
                            index as int,
                            value,
                        ),
                    ),
                ),
                ..old(self)@
            }),
    {
        let first = self.next_vector_id - self.vectors.len();
        let idx = vec_id - first;
        proof {
            assert(self@.vectors[idx as int] == (self.vectors@[idx as int].name@, self.vectors@[
                idx as int
            ].data@));
        }
        self.vectors[idx].data[index] = value;
        proof {
            let target = TableModel {
                vectors: old(self)@.vectors.update(
                    idx as int,
                    (
                        old(self)@.vectors[idx as int].0,
                        old(self)@.vectors[idx as int].1.update(index as int, value),
                    ),
                ),
                ..old(self)@
            };
            assert(self@ =~= target);
            assert forall|i: int, j: int|
                0 <= i < j < self@.vectors.len() implies (#[trigger] self@.vectors[i]).0 != (
            #[trigger] self@.vectors[j]).0 by {
                assert(self@.vectors[i].0 == old(self)@.vectors[i].0);
                assert(self@.vectors[j].0 == old(self)@.vectors[j].0);
            }
            assert forall|i: int, j: int|
                0 <= i < self@.vars.len() && 0 <= j < self@.vectors.len() implies (
            #[trigger] self@.vars[i]).0 != (#[trigger] self@.vectors[j]).0 by {
                assert(self@.vectors[j].0 == old(self)@.vectors[j].0);
            }
            assert forall|i: int, j: int|
                0 <= i < self@.consts.len() && 0 <= j < self@.vectors.len() implies (
            #[trigger] self@.consts[i]).0 != (#[trigger] self@.vectors[j]).0 by {
                assert(self@.vectors[j].0 == old(self)@.vectors[j].0);
            }
            assert forall|i: int, j: int|
                0 <= i < self@.strings.len() && 0 <= j < self@.vectors.len() implies (
            #[trigger] self@.strings[i]).0 != (#[trigger] self@.vectors[j]).0 by {
                assert(self@.vectors[j].0 == old(self)@.vectors[j].0);
            }
            assert forall|i: int, j: int|
                0 <= i < self@.vectors.len() && 0 <= j < self@.funcs.len() implies (
            #[trigger] self@.vectors[i]).0 != (#[trigger] self@.funcs[j]).0 by {
                assert(self@.vectors[i].0 == old(self)@.vectors[i].0);
            }
        }
    }

    /// The identifier of the live variable bearing the given name, nothing
    /// when no live variable bears it (a constant, or a slot of another
    /// category, does not count), and the rejected name when it contains a
    /// null byte or a non-ASCII byte.
    pub fn get_var_id(&self, name: &str) -> (r: Result<Option<usize>, InvalidName>)
        requires
            self.wf(),
        ensures
            match r {
                Err(e) => !valid_name(name@) && e.0@ == name@,
                Ok(None) => valid_name(name@) && !self@.has_var(name@),
                Ok(Some(id)) => valid_name(name@) && self@.has_var(name@) && id == self@.var_id_of(
                    name@,
                ),
            },
    {
        if !is_valid_name(name) {
            return Err(InvalidName(name.to_owned()));
        }
        let key: String = name.to_owned();
        match find_scalar(&self.vars, &key) {
            Some(i) => {
                proof {
                    assert(self@.vars[i as int].0 == key@);
                    lemma_name_at_unique(self@.vars, key@, i as int);
                }
                let first = self.next_var_id - self.vars.len();
                Ok(Some(first + i))
            },
            None => {
                proof {
                    assert forall|j: int| 0 <= j < self@.vars.len() implies (
                    #[trigger] self@.vars[j]).0 != key@ by {
                        assert(self.vars@[j].name@ != key@);
                    }
                }
                Ok(None)
            },
        }
    }

    /// The identifier of the live string slot bearing the given name,
    /// nothing when no live string slot bears it, and the rejected name
    /// when it contains a null byte or a non-ASCII byte.
    pub fn get_string_id(&self, name: &str) -> (r: Result<Option<usize>, InvalidName>)
        requires
            self.wf(),
        ensures
            match r {
                Err(e) => !valid_name(name@) && e.0@ == name@,
                Ok(None) => valid_name(name@) && !self@.has_string(name@),
                Ok(Some(id)) => valid_name(name@) && self@.has_string(name@) && id
                    == self@.string_id_of(name@),
            },
    {
        if !is_valid_name(name) {
            return Err(InvalidName(name.to_owned()));
        }
        let key: String = name.to_owned();
        match find_string(&self.strings, &key) {
            Some(i) => {
                proof {
                    assert(self@.strings[i as int].0 == key@);
                    lemma_name_at_unique(self@.strings, key@, i as int);
                }
                let first = self.next_string_id - self.strings.len();
                Ok(Some(first + i))
            },
            None => {
                proof {
                    assert forall|j: int| 0 <= j < self@.strings.len() implies (
                    #[trigger] self@.strings[j]).0 != key@ by {
                        assert(self.strings@[j].name@ != key@);
                    }
                }
                Ok(None)
            },
        }
    }

    /// The identifier of the live vector slot bearing the given name,
    /// nothing when no live vector slot bears it, and the rejected name
    /// when it contains a null byte or a non-ASCII byte.
    pub fn get_vec_id(&self, name: &str) -> (r: Result<Option<usize>, InvalidName>)
        requires
            self.wf(),
        ensures
            match r {
                Err(e) => !valid_name(name@) && e.0@ == name@,
                Ok(None) => valid_name(name@) && !self@.has_vector(name@),
                Ok(Some(id)) => valid_name(name@) && self@.has_vector(name@) && id
                    == self@.vector_id_of(name@),
            },
    {
        if !is_valid_name(name) {
            return Err(InvalidName(name.to_owned()));
        }
        let key: String = name.to_owned();
        match find_vector(&self.vectors, &key) {
            Some(i) => {
                proof {
                    assert(self@.vectors[i as int].0 == key@);
                    lemma_name_at_unique(self@.vectors, key@, i as int);
                }
                let first = self.next_vector_id - self.vectors.len();
                Ok(Some(first + i))
            },
            None => {
                proof {
                    assert forall|j: int| 0 <= j < self@.vectors.len() implies (
                    #[trigger] self@.vectors[j]).0 != key@ by {
                        assert(self.vectors@[j].name@ != key@);
                    }
                }
                Ok(None)
            },
        }
    }

    /// Drops every scalar slot, variables and constants alike, and retires
    /// every variable identifier assigned so far: a later registration
    /// never reuses one. Other categories stay as they were.
    pub fn clear_variables(&mut self)
        requires
            old(self).wf(),
        ensures
            final(self).wf(),
            final(self)@ == old(self)@.with_scalars_cleared(),
    {
        self.vars.clear();
        self.consts.clear();
        proof {
            assert(self@ =~= (TableModel {
                vars: Seq::empty(),
                consts: Seq::empty(),
                ..old(self)@
            }));
        }
    }

    /// Drops every string slot and retires every string identifier
    /// assigned so far. Other categories stay as they were.
    pub fn clear_strings(&mut self)
        requires
            old(self).wf(),
        ensures
            final(self).wf(),
            final(self)@ == (TableModel { strings: Seq::empty(), ..old(self)@ }),
    {
        self.strings.clear();
        proof {
            assert(self@ =~= (TableModel { strings: Seq::empty(), ..old(self)@ }));
        }
    }

    /// Drops every vector slot and retires every vector identifier
    /// assigned so far. Other categories stay as they were.
    pub fn clear_vectors(&mut self)
        requires
            old(self).wf(),
        ensures
            final(self).wf(),
            final(self)@ == (TableModel { vectors: Seq::empty(), ..old(self)@ }),
    {
        self.vectors.clear();
        proof {
            assert(self@ =~= (TableModel { vectors: Seq::empty(), ..old(self)@ }));
        }
    }

    /// Drops every constant; variables keep their slots and identifiers,
    /// and every other category stays as it was.
    pub fn clear_local_constants(&mut self)
        requires
            old(self).wf(),
        ensures
            final(self).wf(),
            final(self)@ == (TableModel { consts: Seq::empty(), ..old(self)@ }),
    {
        self.consts.clear();
        proof {
            assert(self@ =~= (TableModel { consts: Seq::empty(), ..old(self)@ }));
        }
    }

    /// Drops every function entry. Every other category stays as it was.
    pub fn clear_functions(&mut self)
        requires
            old(self).wf(),
        ensures
            final(self).wf(),
            final(self)@ == (TableModel { funcs: Seq::empty(), ..old(self)@ }),
    {
        self.funcs.clear();
        proof {
            assert(self@ =~= (TableModel { funcs: Seq::empty(), ..old(self)@ }));
        }
    }

    /// How many scalar slots are registered, variables and constants
    /// together.
    pub fn variable_count(&self) -> (r: usize)
        requires
            self.wf(),
            self@.vars.len() + self@.consts.len() <= usize::MAX,
        ensures
            r == self@.vars.len() + self@.consts.len(),
    {
        self.vars.len() + self.consts.len()
    }

    /// How many string slots are registered.
    pub fn stringvar_count(&self) -> (r: usize)
        ensures
            r == self@.strings.len(),
    {
        self.strings.len()
    }

    /// How many vector slots are registered.
    pub fn vector_count(&self) -> (r: usize)
        ensures
            r == self@.vectors.len(),
    {
        self.vectors.len()
    }

    /// How many function entries are registered.
    pub fn function_count(&self) -> (r: usize)
        ensures
            r == self@.funcs.len(),
    {
        self.funcs.len()
    }

    /// Registers the well-known constant `pi`, reporting whether it was
    /// newly added; a repeated call reports `false` and changes nothing.
    pub fn add_pi(&mut self) -> (r: bool)
        requires
            old(self).wf(),
        ensures
            final(self).wf(),
            r == !old(self)@.contains("pi"@),
            final(self)@ == old(self)@.with_const_added("pi"@, PI_BITS),
    {
        proof {
            reveal_strlit("pi");
            assert(valid_name("pi"@));
        }
        match self.add_constant("pi", PI_BITS) {
            Ok(b) => b,
            Err(_) => {
                proof {
                    assert(false);
                }
                false
            },
        }
    }

    /// Registers the well-known constant `epsilon`, reporting whether it
    /// was newly added; a repeated call reports `false` and changes
    /// nothing.
    pub fn add_epsilon(&mut self) -> (r: bool)
        requires
            old(self).wf(),
        ensures
            final(self).wf(),
            r == !old(self)@.contains("epsilon"@),
            final(self)@ == old(self)@.with_const_added("epsilon"@, EPSILON_BITS),
    {
        proof {
            reveal_strlit("epsilon");
            assert(valid_name("epsilon"@));
        }
        match self.add_constant("epsilon", EPSILON_BITS) {
            Ok(b) => b,
            Err(_) => {
                proof {
                    assert(false);
                }
                false
            },
        }
    }

    /// Registers the well-known constant `inf`, reporting whether it was
    /// newly added; a repeated call reports `false` and changes nothing.
    pub fn add_infinity(&mut self) -> (r: bool)
        requires
            old(self).wf(),
        ensures
            final(self).wf(),
            r == !old(self)@.contains("inf"@),
            final(self)@ == old(self)@.with_const_added("inf"@, INFINITY_BITS),
    {
        proof {
            reveal_strlit("inf");
            assert(valid_name("inf"@));
        }
        match self.add_constant("inf", INFINITY_BITS) {
            Ok(b) => b,
            Err(_) => {
                proof {
                    assert(false);
                }
                false
            },
        }
    }

    /// Registers the well-known constants `pi`, `epsilon` and `inf`, in
    /// that order, stopping at the first name already present. Reports
    /// `true` only when all three were newly added.
    pub fn add_constants(&mut self) -> (r: bool)
        requires
            old(self).wf(),
        ensures
            final(self).wf(),
            r == (!old(self)@.contains("pi"@) && !old(self)@.contains("epsilon"@) && !old(
                self,
            )@.contains("inf"@)),
            final(self)@ == old(self)@.with_well_known_constants(),
    {
        proof {
            reveal_strlit("pi");
            reveal_strlit("epsilon");
            reveal_strlit("inf");
            assert("pi"@.len() == 2);
            assert("epsilon"@.len() == 7);
            assert("inf"@.len() == 3);
            assert("pi"@ != "epsilon"@);
            assert("pi"@ != "inf"@);
            assert("epsilon"@ != "inf"@);
        }
        if !self.add_pi() {
            return false;
        }
        let ghost m1 = self@;
        proof {
            lemma_has_name_push(old(self)@.consts, ("pi"@, PI_BITS), "epsilon"@);
            lemma_has_name_push(old(self)@.consts, ("pi"@, PI_BITS), "inf"@);
        }
        if !self.add_epsilon() {
            return false;
        }
        proof {
            lemma_has_name_push(m1.consts, ("epsilon"@, EPSILON_BITS), "inf"@);
        }
        self.add_infinity()
    }

    /// Whether the given name is registered as a constant. The name is
    /// validated first and rejected when it contains a null byte or a
    /// non-ASCII byte.
    pub fn is_constant_node(&self, name: &str) -> (r: Result<bool, InvalidName>)
        requires
            self.wf(),
        ensures
            match r {
                Ok(b) => valid_name(name@) && b == self@.has_const(name@),
                Err(e) => !valid_name(name@) && e.0@ == name@,
            },
    {
        if !is_valid_name(name) {
            return Err(InvalidName(name.to_owned()));
        }
        let key: String = name.to_owned();
        match find_scalar(&self.consts, &key) {
            Some(i) => {
                proof {
                    assert(self@.consts[i as int].0 == key@);
                }
                Ok(true)
            },
            None => {
                proof {
                    assert forall|j: int| 0 <= j < self@.consts.len() implies (
                    #[trigger] self@.consts[j]).0 != key@ by {
                        assert(self.consts@[j].name@ != key@);
                    }
                }
                Ok(false)
            },
        }
    }

    /// Whether the given name is registered as a constant string. No
    /// registration of this table creates one, so for every valid name the
    /// answer is no; an invalid name is rejected as everywhere else.
    pub fn is_constant_string(&self, name: &str) -> (r: Result<bool, InvalidName>)
        ensures
            match r {
                Ok(b) => valid_name(name@) && b == false,
                Err(e) => !valid_name(name@) && e.0@ == name@,
            },
    {
        if !is_valid_name(name) {
            return Err(InvalidName(name.to_owned()));
        }
        Ok(false)
    }

    /// The names of every scalar slot, in registration order: variables
    /// first, then constants.
    pub fn get_variable_names(&self) -> (r: Vec<String>)
        requires
            self@.vars.len() + self@.consts.len() <= usize::MAX,
        ensures
            r@.len() == self@.vars.len() + self@.consts.len(),
            forall|i: int| 0 <= i < self@.vars.len() ==> (#[trigger] r@[i])@ == self@.vars[i].0,
            forall|i: int|
                0 <= i < self@.consts.len() ==> (#[trigger] r@[self@.vars.len() + i])@
                    == self@.consts[i].0,
    {
        let mut r: Vec<String> = Vec::new();
        let mut i: usize = 0;
        while i < self.vars.len()
            invariant
                0 <= i <= self.vars@.len(),
                r@.len() == i,
                forall|j: int| 0 <= j < i ==> (#[trigger] r@[j])@ == self@.vars[j].0,
            decreases self.vars@.len() - i,
        {
            r.push(self.vars[i].name.clone());
            i += 1;
        }
        let mut k: usize = 0;
        while k < self.consts.len()
            invariant
                0 <= k <= self.consts@.len(),
                r@.len() == self.vars@.len() + k,
                forall|j: int|
                    0 <= j < self.vars@.len() ==> (#[trigger] r@[j])@ == self@.vars[j].0,
                forall|j: int|
                    0 <= j < k ==> (#[trigger] r@[self.vars@.len() + j])@ == self@.consts[j].0,
            decreases self.consts@.len() - k,
        {
            r.push(self.consts[k].name.clone());
            k += 1;
        }
        r
    }

    /// The names of every string slot, in registration order.
    pub fn get_stringvar_names(&self) -> (r: Vec<String>)
        ensures
            r@.len() == self@.strings.len(),
            forall|i: int| 0 <= i < self@.strings.len() ==> (#[trigger] r@[i])@ == self@.strings[
                i
            ].0,
    {
        let mut r: Vec<String> = Vec::new();
        let mut i: usize = 0;
        while i < self.strings.len()
            invariant
                0 <= i <= self.strings@.len(),
                r@.len() == i,
                forall|j: int| 0 <= j < i ==> (#[trigger] r@[j])@ == self@.strings[j].0,
            decreases self.strings@.len() - i,
        {
            r.push(self.strings[i].name.clone());
            i += 1;
        }
        r
    }

    /// The names of every vector slot, in registration order.
    pub fn get_vector_names(&self) -> (r: Vec<String>)
        ensures
            r@.len() == self@.vectors.len(),
            forall|i: int| 0 <= i < self@.vectors.len() ==> (#[trigger] r@[i])@ == self@.vectors[
                i
            ].0,
    {
        let mut r: Vec<String> = Vec::new();
        let mut i: usize = 0;
        while i < self.vectors.len()
            invariant
                0 <= i <= self.vectors@.len(),
                r@.len() == i,
                forall|j: int| 0 <= j < i ==> (#[trigger] r@[j])@ == self@.vectors[j].0,
            decreases self.vectors@.len() - i,
        {
            r.push(self.vectors[i].name.clone());
            i += 1;
        }
        r
    }

    /// The names of every function entry, in registration order.
    pub fn get_function_names(&self) -> (r: Vec<String>)
        ensures
            r@.len() == self@.funcs.len(),
            forall|i: int| 0 <= i < self@.funcs.len() ==> (#[trigger] r@[i])@ == self@.funcs[i].0,
    {
        let mut r: Vec<String> = Vec::new();
        let mut i: usize = 0;
        while i < self.funcs.len()
            invariant
                0 <= i <= self.funcs@.len(),
                r@.len() == i,
                forall|j: int| 0 <= j < i ==> (#[trigger] r@[j])@ == self@.funcs[j].0,
            decreases self.funcs@.len() - i,
        {
            r.push(self.funcs[i].name.clone());
            i += 1;
        }
        r
    }
}

impl Clone for ScalarSlot {
    fn clone(&self) -> (r: Self)
        ensures
            r == *self,
    {
        ScalarSlot { name: self.name.clone(), bits: self.bits }
    }
}

impl Clone for StringSlot {
    fn clone(&self) -> (r: Self)
        ensures
            r.name == self.name,
            r.value@ == self.value@,
    {
        StringSlot { name: self.name.clone(), value: self.value.clone() }
    }
}

impl Clone for VectorSlot {
    fn clone(&self) -> (r: Self)
        ensures
            r.name == self.name,
            r.data@ == self.data@,
    {
        let r = VectorSlot { name: self.name.clone(), data: self.data.clone() };
        proof {
            assert(r.data@ =~= self.data@);
        }
        r
    }
}

impl Clone for FuncSlot {
    fn clone(&self) -> (r: Self)
        ensures
            r == *self,
    {
        FuncSlot { name: self.name.clone(), arity: self.arity }
    }
}

impl Clone for SymbolTable {
    /// A deep, independent copy: the clone holds the same names, values,
    /// constant-ness, lengths and identifier state as the original.
    /// Because the copy shares no storage with the original, mutating
    /// either table never changes the other.
    fn clone(&self) -> (r: Self)
        ensures
            r@ == self@,
    {
        let r = SymbolTable {
            vars: self.vars.clone(),
            consts: self.consts.clone(),
            strings: self.strings.clone(),
            vectors: self.vectors.clone(),
            funcs: self.funcs.clone(),
            next_var_id: self.next_var_id,
            next_string_id: self.next_string_id,
            next_vector_id: self.next_vector_id,
        };
        proof {
            assert forall|i: int| 0 <= i < r@.vars.len() implies #[trigger] r@.vars[i]
                == self@.vars[i] by {
                assert(cloned::<ScalarSlot>(self.vars@[i], r.vars@[i]));
            }
            assert forall|i: int| 0 <= i < r@.consts.len() implies #[trigger] r@.consts[i]
                == self@.consts[i] by {
                assert(cloned::<ScalarSlot>(self.consts@[i], r.consts@[i]));
            }
            assert forall|i: int| 0 <= i < r@.strings.len() implies #[trigger] r@.strings[i]
                == self@.strings[i] by {
                assert(cloned::<StringSlot>(self.strings@[i], r.strings@[i]));
            }
            assert forall|i: int| 0 <= i < r@.vectors.len() implies #[trigger] r@.vectors[i]
                == self@.vectors[i] by {
                assert(cloned::<VectorSlot>(self.vectors@[i], r.vectors@[i]));
            }
            assert forall|i: int| 0 <= i < r@.funcs.len() implies #[trigger] r@.funcs[i]
                == self@.funcs[i] by {
                assert(cloned::<FuncSlot>(self.funcs@[i], r.funcs@[i]));
            }
            assert(r@ =~= self@);
        }
        r
    }
}

impl Default for SymbolTable {
    /// The empty table.
    fn default() -> (r: Self)
        ensures
            r.wf(),
            r@ == TableModel::empty(),
    {
        SymbolTable::new()
    }
}

} // verus!
