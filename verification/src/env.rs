//! An insertion-ordered mapping from names to shadow chains of cells.
//!
//! Declaring a name pushes a fresh cell onto that name's chain (creating the
//! chain if the name is new), so older declarations stay allocated but become
//! unreachable by name. Lookups and assignments always resolve to the newest
//! cell of a chain. There is no deletion.
//!
//! Contracts are stated over a ghost model: a sequence of entries, each an
//! entry name together with the nonempty chain of (value, mutability) pairs
//! declared under it, newest last.

use vstd::prelude::*;

use crate::cell::CellError;
use crate::cell::ValueCell;
use crate::value::Value;

verus! {

/// The ghost model of one cell: its value and its mutability flag.
pub struct CellModel {
    pub value: Value,
    pub mutable: bool,
}

/// The ghost model of one entry: a name and its shadow chain, newest last.
#[verifier::ext_equal]
pub struct EntryModel {
    pub name: Seq<char>,
    pub cells: Seq<CellModel>,
}

/// The ghost model of a whole environment, entries in declaration order.
pub type EnvModel = Seq<EntryModel>;

/// Entry names are distinct and every chain is nonempty.
pub open spec fn env_wf(m: EnvModel) -> bool {
    &&& forall|i: int, j: int| 0 <= i < j < m.len() ==> m[i].name != m[j].name
    &&& forall|i: int| 0 <= i < m.len() ==> m[i].cells.len() > 0
}

/// Whether `name` has been declared.
pub open spec fn env_contains(m: EnvModel, name: Seq<char>) -> bool {
    exists|i: int| 0 <= i < m.len() && m[i].name == name
}

/// The index of the entry for `name` (meaningful only when it is declared).
pub open spec fn env_index(m: EnvModel, name: Seq<char>) -> int {
    choose|i: int| 0 <= i < m.len() && m[i].name == name
}

/// The shadow chain declared under `name`, oldest first.
pub open spec fn env_chain(m: EnvModel, name: Seq<char>) -> Seq<CellModel> {
    m[env_index(m, name)].cells
}

/// The newest cell declared under `name`: the one lookups resolve to.
pub open spec fn env_top(m: EnvModel, name: Seq<char>) -> CellModel {
    env_chain(m, name).last()
}

/// The model after declaring `name`: its chain grows by one cell, every
/// other entry is untouched.
pub open spec fn env_declare(m: EnvModel, name: Seq<char>, value: Value, mutable: bool) -> EnvModel {
    let c = CellModel { value, mutable };
    if env_contains(m, name) {
        let i = env_index(m, name);
        m.update(i, EntryModel { name: m[i].name, cells: m[i].cells.push(c) })
    } else {
        m.push(EntryModel { name, cells: seq![c] })
    }
}

/// The model after overwriting the newest cell for `name` with `value`,
/// keeping its mutability flag (meaningful only when `name` is declared).
pub open spec fn env_set_top(m: EnvModel, name: Seq<char>, value: Value) -> EnvModel {
    let i = env_index(m, name);
    let ch = m[i].cells;
    m.update(
        i,
        EntryModel {
            name: m[i].name,
            cells: ch.update(ch.len() - 1, CellModel { value, mutable: ch.last().mutable }),
        },
    )
}

/// In a well-formed model the entry index of a declared name is the unique
/// index carrying that name.
pub proof fn lemma_env_index(m: EnvModel, name: Seq<char>)
    requires
        env_wf(m),
        env_contains(m, name),
    ensures
        0 <= env_index(m, name) < m.len(),
        m[env_index(m, name)].name == name,
        forall|j: int| 0 <= j < m.len() && m[j].name == name ==> j == env_index(m, name),
{
    let i = env_index(m, name);
    assert(0 <= i < m.len() && m[i].name == name);
    assert forall|j: int| 0 <= j < m.len() && m[j].name == name implies j == i by {
        if j < i {
            assert(m[j].name != m[i].name);
        }
        if i < j {
            assert(m[i].name != m[j].name);
        }
    }
}

/// Declaring never fails and shadows rather than overwrites: afterwards the
/// name is present, its chain is the old chain (empty for a new name)
/// extended by the new cell, and every other name's chain is untouched.
pub proof fn lemma_declare(m: EnvModel, name: Seq<char>, value: Value, mutable: bool)
    requires
        env_wf(m),
    ensures
        ({
            let m2 = env_declare(m, name, value, mutable);
            let c = CellModel { value, mutable };
            let old_chain = if env_contains(m, name) {
                env_chain(m, name)
            } else {
                Seq::<CellModel>::empty()
            };
            &&& env_wf(m2)
            &&& env_contains(m2, name)
            &&& env_chain(m2, name) == old_chain.push(c)
            &&& env_top(m2, name) == c
            &&& forall|n: Seq<char>|
                n != name ==> (env_contains(m2, n) <==> env_contains(m, n))
            &&& forall|n: Seq<char>|
                n != name && env_contains(m, n) ==> env_chain(m2, n) == env_chain(m, n)
        }),
{
    let m2 = env_declare(m, name, value, mutable);
    let c = CellModel { value, mutable };
    if env_contains(m, name) {
        lemma_env_index(m, name);
        let i = env_index(m, name);
        assert(m2.len() == m.len());
        assert(forall|k: int| 0 <= k < m2.len() ==> m2[k].name == m[k].name);
        assert(env_wf(m2));
        assert(m2[i].name == name);
        assert(env_contains(m2, name));
        lemma_env_index(m2, name);
        assert(env_index(m2, name) == i);
        assert(env_chain(m2, name) == env_chain(m, name).push(c));
        assert forall|n: Seq<char>| n != name implies (env_contains(m2, n) <==> env_contains(
            m,
            n,
        )) by {
            assert forall|k: int| 0 <= k < m.len() && m[k].name == n implies m2[k].name == n by {}
            assert forall|k: int| 0 <= k < m2.len() && m2[k].name == n implies m[k].name == n by {}
        }
        assert forall|n: Seq<char>| n != name && env_contains(m, n) implies env_chain(m2, n)
            == env_chain(m, n) by {
            lemma_env_index(m, n);
            let k = env_index(m, n);
            assert(m2[k].name == n);
            lemma_env_index(m2, n);
            assert(env_index(m2, n) == k);
        }
    } else {
        assert(forall|k: int| 0 <= k < m.len() ==> m[k].name != name);
        assert(m2.len() == m.len() + 1);
        assert(m2[m.len() as int].name == name);
        assert(forall|k: int| 0 <= k < m.len() ==> m2[k].name == m[k].name);
        assert(env_wf(m2));
        assert(env_contains(m2, name));
        lemma_env_index(m2, name);
        let i = env_index(m2, name);
        assert(i == m.len());
        assert(env_chain(m2, name) =~= Seq::<CellModel>::empty().push(c));
        assert forall|n: Seq<char>| n != name implies (env_contains(m2, n) <==> env_contains(
            m,
            n,
        )) by {
            assert forall|k: int| 0 <= k < m.len() && m[k].name == n implies m2[k].name == n by {}
            if env_contains(m2, n) {
                let k = choose|k: int| 0 <= k < m2.len() && m2[k].name == n;
                assert(k < m.len());
                assert(m[k].name == n);
            }
        }
        assert forall|n: Seq<char>| n != name && env_contains(m, n) implies env_chain(m2, n)
            == env_chain(m, n) by {
            lemma_env_index(m, n);
            let k = env_index(m, n);
            assert(m2[k].name == n);
            assert(env_contains(m2, n));
            lemma_env_index(m2, n);
            assert(env_index(m2, n) == k);
        }
    }
}

/// Overwriting the newest cell of a declared name touches nothing else: the
/// set of declared names is unchanged, the newest cell for the name now
/// holds the new value under its old mutability flag, the older cells of
/// its chain are untouched, and so is every other chain.
pub proof fn lemma_set_top(m: EnvModel, name: Seq<char>, value: Value)
    requires
        env_wf(m),
        env_contains(m, name),
    ensures
        ({
            let m2 = env_set_top(m, name, value);
            &&& env_wf(m2)
            &&& forall|n: Seq<char>| env_contains(m2, n) <==> env_contains(m, n)
            &&& env_chain(m2, name).len() == env_chain(m, name).len()
            &&& env_top(m2, name) == (CellModel {
                value,
                mutable: env_top(m, name).mutable,
            })
            &&& forall|k: int|
                0 <= k < env_chain(m, name).len() - 1 ==> env_chain(m2, name)[k] == env_chain(
                    m,
                    name,
                )[k]
            &&& forall|n: Seq<char>|
                n != name && env_contains(m, n) ==> env_chain(m2, n) == env_chain(m, n)
        }),
{
    lemma_env_index(m, name);
    let i = env_index(m, name);
    let m2 = env_set_top(m, name, value);
    assert(m2.len() == m.len());
    assert(forall|k: int| 0 <= k < m2.len() ==> m2[k].name == m[k].name);
    assert(env_wf(m2));
    assert(m2[i].name == name);
    assert(env_contains(m2, name));
    lemma_env_index(m2, name);
    assert(env_index(m2, name) == i);
    assert forall|n: Seq<char>| env_contains(m2, n) <==> env_contains(m, n) by {
        assert forall|k: int| 0 <= k < m.len() && m[k].name == n implies m2[k].name == n by {}
        assert forall|k: int| 0 <= k < m2.len() && m2[k].name == n implies m[k].name == n by {}
    }
    assert forall|n: Seq<char>| n != name && env_contains(m, n) implies env_chain(m2, n)
        == env_chain(m, n) by {
        lemma_env_index(m, n);
        let k = env_index(m, n);
        assert(m2[k].name == n);
        assert(env_contains(m2, n));
        lemma_env_index(m2, n);
        assert(env_index(m2, n) == k);
        assert(k != i);
    }
}

/// Shadowing: declaring a name twice in a row never fails, afterwards the
/// newest cell is exactly the second declaration — whatever its kind or
/// mutability — and the first declaration's cell still sits, unreachable by
/// name, directly beneath it.
pub proof fn lemma_shadowing(
    m: EnvModel,
    name: Seq<char>,
    first: Value,
    first_mutable: bool,
    second: Value,
    second_mutable: bool,
)
    requires
        env_wf(m),
    ensures
        ({
            let m1 = env_declare(m, name, first, first_mutable);
            let m2 = env_declare(m1, name, second, second_mutable);
            let chain = env_chain(m2, name);
            &&& env_wf(m2)
            &&& env_contains(m2, name)
            &&& env_top(m2, name) == (CellModel { value: second, mutable: second_mutable })
            &&& chain.len() >= 2
            &&& chain[chain.len() - 2] == (CellModel { value: first, mutable: first_mutable })
        }),
{
    lemma_declare(m, name, first, first_mutable);
    let m1 = env_declare(m, name, first, first_mutable);
    lemma_declare(m1, name, second, second_mutable);
}

/// Why an environment operation failed.
#[derive(Debug, Clone, Copy, PartialEq, Eq, Structural)]
pub enum EnvError {
    /// The name was never declared.
    UnknownName,
    /// The newest cell for the name was declared immutable.
    ImmutableAssignment,
    /// The value's kind differs from the kind the newest cell holds.
    TypeMismatch,
}

struct Entry {
    name: String,
    cells: Vec<ValueCell>,
}

/// An insertion-ordered mapping from names to shadow chains of cells.
pub struct Environment {
    entries: Vec<Entry>,
}

impl View for Environment {
    type V = EnvModel;

    closed spec fn view(&self) -> EnvModel {
        self.entries@.map_values(
            |e: Entry|
                EntryModel {
                    name: e.name@,
                    cells: e.cells@.map_values(
                        |c: ValueCell| CellModel { value: c.value, mutable: c.mutable },
                    ),
                },
        )
    }
}

impl Environment {
    /// Every stored cell carries the name of the entry it sits under.
    pub closed spec fn inv(self) -> bool {
        forall|i: int, k: int|
            0 <= i < self.entries@.len() && 0 <= k < self.entries@[i].cells@.len() ==> (
            #[trigger] self.entries@[i].cells@[k]).name@ == self.entries@[i].name@
    }

    /// The environment is well formed: its model is, and its internal naming
    /// is consistent.
    pub open spec fn wf(self) -> bool {
        env_wf(self@) && self.inv()
    }

    /// Create an empty environment.
    pub fn new() -> (e: Environment)
        ensures
            e.wf(),
            e@ == Seq::<EntryModel>::empty(),
    {
        let e = Environment { entries: Vec::new() };
        proof {
            assert(e@ =~= Seq::<EntryModel>::empty());
        }
        e
    }

    fn find_entry(&self, name: &String) -> (r: Option<usize>)
        requires
            self.wf(),
        ensures
            match r {
                Some(i) => env_contains(self@, name@) && i as int == env_index(self@, name@),
                None => !env_contains(self@, name@),
            },
    {
        let n = self.entries.len();
        let mut i: usize = 0;
        while i < n
            invariant
                self.wf(),
                n == self.entries@.len(),
                i <= n,
                forall|j: int| 0 <= j < i ==> self@[j].name != name@,
            decreases n - i,
        {
            if self.entries[i].name == *name {
                proof {
                    assert(self@[i as int].name == name@);
                    assert(env_contains(self@, name@));
                    lemma_env_index(self@, name@);
                }
                return Some(i);
            }
            i += 1;
        }
        None
    }

    /// Declare `name`, binding it to a fresh cell holding `value`.
    ///
    /// Declaring always succeeds. A redeclaration shadows: the new cell is
    /// pushed onto the name's chain — even if its kind or mutability differs
    /// from the cell it shadows — and every other name is untouched.
    pub fn declare(&mut self, name: String, value: Value, mutable: bool)
        requires
            old(self).wf(),
        ensures
            final(self).wf(),
            final(self)@ == env_declare(old(self)@, name@, value, mutable),
    {
        let ghost m = self@;
        let ghost gname = name@;
        proof {
            lemma_declare(m, gname, value, mutable);
        }
        let found = self.find_entry(&name);
        match found {
            Some(i) => {
                let cell = ValueCell::create(name, value, mutable);
                self.entries[i].cells.push(cell);
                proof {
                    assert(self@ =~~= env_declare(m, gname, value, mutable));
                    assert(self.inv());
                }
            },
            None => {
                let entry_name = name.clone();
                let cell = ValueCell::create(name, value, mutable);
                let mut cells: Vec<ValueCell> = Vec::new();
                cells.push(cell);
                self.entries.push(Entry { name: entry_name, cells });
                proof {
                    assert(self@ =~~= env_declare(m, gname, value, mutable));
                    assert(self.inv());
                }
            },
        }
    }

    /// Look `name` up, returning the value of its newest cell.
    ///
    /// Fails with `UnknownName` exactly when the name was never declared.
    /// Reading has no side effect.
    pub fn lookup(&self, name: &String) -> (r: Result<&Value, EnvError>)
        requires
            self.wf(),
        ensures
            match r {
                Ok(v) => env_contains(self@, name@) && *v == env_top(self@, name@).value,
                Err(e) => e == EnvError::UnknownName && !env_contains(self@, name@),
            },
    {
        match self.find_entry(name) {
            None => Err(EnvError::UnknownName),
            Some(i) => {
                let n = self.entries[i].cells.len();
                proof {
                    assert(self@[i as int].cells.len() > 0);
                }
                Ok(&self.entries[i].cells[n - 1].value)
            },
        }
    }

    /// Assign `value` to the newest cell declared for `name`.
    ///
    /// Fails with `UnknownName` exactly when the name was never declared,
    /// with `ImmutableAssignment` exactly when the newest cell is immutable,
    /// and with `TypeMismatch` exactly when the newest cell is mutable but
    /// holds a value of a different kind. On failure the environment is
    /// unchanged; on success only that newest cell's value changes.
    pub fn assign(&mut self, name: &String, value: Value) -> (r: Result<(), EnvError>)
        requires
            old(self).wf(),
        ensures
            final(self).wf(),
            match r {
                Ok(()) => env_contains(old(self)@, name@) && env_top(old(self)@, name@).mutable
                    && value.kind() == env_top(old(self)@, name@).value.kind() && final(self)@
                    == env_set_top(old(self)@, name@, value),
                Err(e) => final(self)@ == old(self)@ && match e {
                    EnvError::UnknownName => !env_contains(old(self)@, name@),
                    EnvError::ImmutableAssignment => env_contains(old(self)@, name@) && !env_top(
                        old(self)@,
                        name@,
                    ).mutable,
                    EnvError::TypeMismatch => env_contains(old(self)@, name@) && env_top(
                        old(self)@,
                        name@,
                    ).mutable && value.kind() != env_top(old(self)@, name@).value.kind(),
                },
            },
    {
        let ghost m = old(self)@;
        let found = self.find_entry(name);
        let i = match found {
            None => {
                return Err(EnvError::UnknownName);
            },
            Some(i) => i,
        };
        proof {
            lemma_env_index(m, name@);
            lemma_set_top(m, name@, value);
            assert(m[i as int].cells.len() > 0);
        }
        let n = self.entries[i].cells.len();
        let res = self.entries[i].cells[n - 1].set(value);
        match res {
            Ok(()) => {
                proof {
                    assert(self@ =~~= env_set_top(m, name@, value));
                    assert(self.inv());
                }
                Ok(())
            },
            Err(CellError::ImmutableAssignment) => {
                proof {
                    assert(self@ =~~= m);
                    assert(self.inv());
                }
                Err(EnvError::ImmutableAssignment)
            },
            Err(CellError::TypeMismatch) => {
                proof {
                    assert(self@ =~~= m);
                    assert(self.inv());
                }
                Err(EnvError::TypeMismatch)
            },
        }
    }
}

} // verus!
