use vstd::prelude::*;

use crate::error::{copy_object_error, ExecutableError};
use crate::function::{matching_count, no_truncated_match, FuncModel, Function, MatchScore};
use crate::mapping::{size_hint_of, DefModel, Mapping};
use crate::sources::{
    read_procedures, read_publics, read_symbols, read_text_section, CodeSection, ObjectFile,
    PdbFile, ProcedureInfo, PublicInfo, SectionModel, SymbolInfo,
};

verus! {

/// Some entry of `s` is named `name`.
pub open spec fn contains_name(s: Seq<FuncModel>, name: Seq<char>) -> bool {
    exists|i: int| 0 <= i < s.len() && s[i].name == name
}

/// The first entry of `s` named `name`, in table order.
pub open spec fn name_lookup(s: Seq<FuncModel>, name: Seq<char>) -> Option<FuncModel>
    decreases s.len(),
{
    if s.len() == 0 {
        None
    } else if s[0].name == name {
        Some(s[0])
    } else {
        name_lookup(s.drop_first(), name)
    }
}

/// The first entry of `s` whose load address equals `address`, in table
/// order. Which function wins when distinct names share an address is a
/// property of the table order, not of the addresses.
pub open spec fn addr_lookup(s: Seq<FuncModel>, address: usize) -> Option<FuncModel>
    decreases s.len(),
{
    if s.len() == 0 {
        None
    } else if s[0].address == address {
        Some(s[0])
    } else {
        addr_lookup(s.drop_first(), address)
    }
}

/// A name lookup succeeds exactly when the name occurs, and returns an entry
/// of the table carrying that name.
pub proof fn lemma_name_lookup(s: Seq<FuncModel>, name: Seq<char>)
    ensures
        (name_lookup(s, name) is Some) == contains_name(s, name),
        name_lookup(s, name) matches Some(f) ==> f.name == name && s.contains(f),
    decreases s.len(),
{
    if s.len() > 0 {
        lemma_name_lookup(s.drop_first(), name);
        if s[0].name == name {
            assert(contains_name(s, name));
        } else {
            if contains_name(s, name) {
                let i = choose|i: int| 0 <= i < s.len() && s[i].name == name;
                assert(s.drop_first()[i - 1] == s[i]);
                assert(contains_name(s.drop_first(), name));
            }
            match name_lookup(s.drop_first(), name) {
                Some(f) => {
                    assert(s.drop_first().contains(f));
                    let i = choose|i: int|
                        0 <= i < s.drop_first().len() && s.drop_first()[i] == f;
                    assert(s[i + 1] == f);
                },
                None => {},
            }
        }
    }
}

/// In a table with pairwise distinct names, looking up the name of entry `k`
/// yields entry `k` itself.
pub proof fn lemma_name_lookup_at(s: Seq<FuncModel>, k: int)
    requires
        0 <= k < s.len(),
        forall|i: int, j: int| 0 <= i < j < s.len() ==> s[i].name != s[j].name,
    ensures
        name_lookup(s, s[k].name) == Some(s[k]),
    decreases s.len(),
{
    if k > 0 {
        assert(s[0].name != s[k].name);
        assert(s.drop_first()[k - 1] == s[k]);
        assert(forall|i: int, j: int|
            0 <= i < j < s.drop_first().len() ==> s.drop_first()[i].name
                != s.drop_first()[j].name) by {
            assert(forall|i: int| 0 <= i < s.drop_first().len() ==> s.drop_first()[i] == s[i + 1]);
        }
        lemma_name_lookup_at(s.drop_first(), k - 1);
    }
}

/// A name-keyed table of [`Function`]s; the name is the uniqueness key.
///
/// Built incrementally by up to three passes in fixed priority order: the
/// object file's own exported code symbols seed the table, and the additive
/// debug-info passes only ever add names not already present.
#[derive(Clone, Debug)]
pub struct Executable {
    functions: Vec<Function>,
}

impl View for Executable {
    type V = Seq<FuncModel>;

    closed spec fn view(&self) -> Seq<FuncModel> {
        self.functions@.map(|i: int, f: Function| f@)
    }
}

impl Default for Executable {
    /// An empty table.
    fn default() -> (r: Self)
        ensures
            r@ == Seq::<FuncModel>::empty(),
            r.wf(),
    {
        let r = Executable { functions: Vec::new() };
        proof {
            assert(r@ =~= Seq::<FuncModel>::empty());
        }
        r
    }
}

impl Executable {
    /// Well-formed table: no two entries share a name, and every entry holds
    /// a non-empty byte range.
    pub open spec fn wf(self) -> bool {
        &&& forall|i: int, j: int| 0 <= i < j < self@.len() ==> self@[i].name != self@[j].name
        &&& forall|i: int| 0 <= i < self@.len() ==> self@[i].data.len() > 0
    }

    /// Whether some entry is named `name`.
    fn contains_key(&self, name: &String) -> (r: bool)
        ensures
            r == contains_name(self@, name@),
    {
        let mut i: usize = 0;
        while i < self.functions.len()
            invariant
                0 <= i <= self.functions.len(),
                self@.len() == self.functions@.len(),
                forall|j: int| 0 <= j < self@.len() ==> self@[j] == self.functions@[j]@,
                forall|j: int| 0 <= j < i ==> self@[j].name != name@,
            decreases self.functions.len() - i,
        {
            if self.functions[i].name == *name {
                proof {
                    assert(self@[i as int].name == name@);
                }
                return true;
            }
            i = i + 1;
        }
        false
    }

    /// Inserts a new function under `name`; a name already present is a
    /// conflict that leaves the table unchanged.
    pub fn add_function(&mut self, name: String, address: usize, data: Vec<u8>) -> (r: Result<
        (),
        ExecutableError,
    >)
        requires
            old(self).wf(),
            data@.len() > 0,
        ensures
            final(self).wf(),
            contains_name(old(self)@, name@) ==> final(self)@ == old(self)@ && (r matches Err(e)
                && e.is_conflict_for(name@)),
            !contains_name(old(self)@, name@) ==> r is Ok && final(self)@ == old(self)@.push(
                FuncModel { name: name@, address, data: data@ },
            ),
    {
        if self.contains_key(&name) {
            return Err(ExecutableError::FunctionNameConflict { function_name: name });
        }
        let ghost old_view = self@;
        let ghost model = FuncModel { name: name@, address, data: data@ };
        self.functions.push(Function { name, address, data });
        proof {
            assert(self@ =~= old_view.push(model));
            assert forall|i: int, j: int| 0 <= i < j < self@.len() implies self@[i].name
                != self@[j].name by {
                if j < old_view.len() {
                } else {
                    assert(self@[j] == model);
                    assert(!contains_name(old_view, model.name));
                }
            }
        }
        Ok(())
    }

    /// Number of functions in the table.
    pub fn functions_count(&self) -> (r: usize)
        ensures
            r == self@.len(),
    {
        self.functions.len()
    }

    /// The functions in table order.
    pub fn functions_iter(&self) -> (r: &Vec<Function>)
        ensures
            r@.len() == self@.len(),
            forall|i: int| 0 <= i < r@.len() ==> r@[i]@ == self@[i],
    {
        &self.functions
    }

    /// Looks a function up by its unique name.
    pub fn get_function(&self, name: &String) -> (r: Option<&Function>)
        ensures
            match r {
                Some(f) => name_lookup(self@, name@) == Some(f@),
                None => name_lookup(self@, name@) is None,
            },
    {
        let ghost s = self@;
        proof {
            assert(s.skip(0) =~= s);
        }
        let mut i: usize = 0;
        while i < self.functions.len()
            invariant
                0 <= i <= self.functions.len(),
                s == self@,
                s.len() == self.functions@.len(),
                forall|j: int| 0 <= j < s.len() ==> s[j] == self.functions@[j]@,
                name_lookup(s, name@) == name_lookup(s.skip(i as int), name@),
            decreases self.functions.len() - i,
        {
            proof {
                assert(s.skip(i as int)[0] == s[i as int]);
                assert(s.skip(i as int).drop_first() =~= s.skip(i as int + 1));
            }
            if self.functions[i].name == *name {
                return Some(&self.functions[i]);
            }
            i = i + 1;
        }
        None
    }

    /// Looks a function up by load address: the first match in table order
    /// wins, which on duplicate addresses is an arbitrary-but-stable choice.
    pub fn get_function_by_address(&self, address: usize) -> (r: Option<&Function>)
        ensures
            match r {
                Some(f) => addr_lookup(self@, address) == Some(f@),
                None => addr_lookup(self@, address) is None,
            },
    {
        let ghost s = self@;
        proof {
            assert(s.skip(0) =~= s);
        }
        let mut i: usize = 0;
        while i < self.functions.len()
            invariant
                0 <= i <= self.functions.len(),
                s == self@,
                s.len() == self.functions@.len(),
                forall|j: int| 0 <= j < s.len() ==> s[j] == self.functions@[j]@,
                addr_lookup(s, address) == addr_lookup(s.skip(i as int), address),
            decreases self.functions.len() - i,
        {
            proof {
                assert(s.skip(i as int)[0] == s[i as int]);
                assert(s.skip(i as int).drop_first() =~= s.skip(i as int + 1));
            }
            if self.functions[i].address == address {
                return Some(&self.functions[i]);
            }
            i = i + 1;
        }
        None
    }

    /// Score of the function called `name` against its same-named
    /// counterpart in `other`; `None` when either side lacks the name.
    pub fn get_function_stat(&self, other: &Executable, name: &String) -> (r: Option<MatchScore>)
        requires
            self.wf(),
            other.wf(),
            match (name_lookup(self@, name@), name_lookup(other@, name@)) {
                (Some(a), Some(b)) => no_truncated_match(a.data, b.data),
                _ => true,
            },
        ensures
            match r {
                Some(sc) => name_lookup(self@, name@) matches Some(a) && name_lookup(other@, name@)
                    matches Some(b) && sc.matching == matching_count(a.data, b.data) && sc.total
                    == a.data.len(),
                None => name_lookup(self@, name@) is None || name_lookup(other@, name@) is None,
            },
    {
        proof {
            lemma_name_lookup(self@, name@);
            lemma_name_lookup(other@, name@);
        }
        match (self.get_function(name), other.get_function(name)) {
            (Some(a), Some(b)) => {
                proof {
                    let i = choose|i: int| 0 <= i < self@.len() && self@[i] == a@;
                    assert(self@[i].data.len() > 0);
                }
                Some(a.compute_raw_diff(b))
            },
            _ => None,
        }
    }

    /// One scored entry per function of `self`, in table order: the score
    /// against the same-named function of `other`, or `None` — explicitly
    /// "no counterpart", distinct from a zero score — when `other` lacks the
    /// name.
    pub fn generate_stats(&self, other: &Executable) -> (r: Vec<(String, Option<MatchScore>)>)
        requires
            self.wf(),
            other.wf(),
            forall|i: int| 0 <= i < self@.len() ==> match name_lookup(
                other@,
                #[trigger] self@[i].name,
            ) {
                Some(b) => no_truncated_match(self@[i].data, b.data),
                None => true,
            },
        ensures
            r@.len() == self@.len(),
            forall|i: int|
                0 <= i < r@.len() ==> (#[trigger] r@[i]).0@ == self@[i].name && match r@[i].1 {
                    Some(sc) => name_lookup(other@, self@[i].name) matches Some(b) && sc.matching
                        == matching_count(self@[i].data, b.data) && sc.total
                        == self@[i].data.len(),
                    None => name_lookup(other@, self@[i].name) is None,
                },
    {
        let mut res: Vec<(String, Option<MatchScore>)> = Vec::new();
        let mut k: usize = 0;
        while k < self.functions.len()
            invariant
                0 <= k <= self.functions.len(),
                self.wf(),
                other.wf(),
                self@.len() == self.functions@.len(),
                forall|j: int| 0 <= j < self@.len() ==> self@[j] == self.functions@[j]@,
                forall|i: int| 0 <= i < self@.len() ==> match name_lookup(
                    other@,
                    #[trigger] self@[i].name,
                ) {
                    Some(b) => no_truncated_match(self@[i].data, b.data),
                    None => true,
                },
                res@.len() == k,
                forall|i: int|
                    0 <= i < k ==> (#[trigger] res@[i]).0@ == self@[i].name && match res@[i].1 {
                        Some(sc) => name_lookup(other@, self@[i].name) matches Some(b)
                            && sc.matching == matching_count(self@[i].data, b.data) && sc.total
                            == self@[i].data.len(),
                        None => name_lookup(other@, self@[i].name) is None,
                    },
            decreases self.functions.len() - k,
        {
            let name = self.functions[k].name.clone();
            proof {
                lemma_name_lookup_at(self@, k as int);
            }
            let stat = self.get_function_stat(other, &name);
            res.push((name, stat));
            k = k + 1;
        }
        res
    }
}

/// Outcome of one table-building pass over one source of ranges: the table
/// it leaves behind, or the input fault that stops it.
pub ghost enum BuildOutcome {
    /// The pass ran to the end and left this table.
    Built(Seq<FuncModel>),
    /// The primary pass met a second code symbol with this name.
    Conflict(Seq<char>),
    /// An extraction range — absolute for primary symbols and mapping
    /// entries, section-relative for debug-info symbols — left the code
    /// section.
    OutOfBounds(usize, usize),
    /// The primary pass needed the name of a code symbol that the object
    /// reader could not decode.
    UnreadableName,
}

/// The absolute range `[address, address + size)` lies inside the code
/// section.
pub open spec fn slice_ok(code: SectionModel, address: usize, size: usize) -> bool {
    &&& address >= code.base
    &&& address - code.base + size <= code.bytes.len()
}

/// The bytes of the code section at absolute range `[address, address + size)`.
pub open spec fn slice_at(code: SectionModel, address: usize, size: usize) -> Seq<u8> {
    code.bytes.subrange(address - code.base, address - code.base + size)
}

/// The section-relative range `[offset, offset + len)` lies inside the code
/// section, and the absolute address `base + offset` is representable.
pub open spec fn pdb_range_ok(code: SectionModel, offset: usize, len: usize) -> bool {
    &&& offset + len <= code.bytes.len()
    &&& code.base + offset <= usize::MAX
}

/// The bytes of the code section at section-relative range
/// `[offset, offset + len)`.
pub open spec fn pdb_slice_at(code: SectionModel, offset: usize, len: usize) -> Seq<u8> {
    code.bytes.subrange(offset as int, offset + len)
}

/// One additive insertion, as the debug-info passes perform it: a zero
/// length means "skip — no size known", a name already present keeps the
/// earlier entry, and only a range that leaves the section is a fault.
pub open spec fn additive_insert(
    code: SectionModel,
    acc: Seq<FuncModel>,
    name: Seq<char>,
    offset: usize,
    len: usize,
) -> BuildOutcome {
    if len == 0 {
        BuildOutcome::Built(acc)
    } else if !pdb_range_ok(code, offset, len) {
        BuildOutcome::OutOfBounds(offset, len)
    } else if contains_name(acc, name) {
        BuildOutcome::Built(acc)
    } else {
        BuildOutcome::Built(
            acc.push(
                FuncModel {
                    name,
                    address: (code.base + offset) as usize,
                    data: pdb_slice_at(code, offset, len),
                },
            ),
        )
    }
}

/// The primary pass: every code symbol of nonzero size is sliced out of the
/// code section and inserted; a duplicate name here is a hard fault.
pub open spec fn primary_pass(
    code: SectionModel,
    syms: Seq<SymbolInfo>,
    acc: Seq<FuncModel>,
) -> BuildOutcome
    decreases syms.len(),
{
    if syms.len() == 0 {
        BuildOutcome::Built(acc)
    } else {
        let s = syms[0];
        if !s.is_code || s.size == 0 {
            primary_pass(code, syms.drop_first(), acc)
        } else {
            match s.name {
                Err(_) => BuildOutcome::UnreadableName,
                Ok(n) => if !slice_ok(code, s.address, s.size) {
                    BuildOutcome::OutOfBounds(s.address, s.size)
                } else if contains_name(acc, n@) {
                    BuildOutcome::Conflict(n@)
                } else {
                    primary_pass(
                        code,
                        syms.drop_first(),
                        acc.push(
                            FuncModel {
                                name: n@,
                                address: s.address,
                                data: slice_at(code, s.address, s.size),
                            },
                        ),
                    )
                },
            }
        }
    }
}

/// The debug-procedure pass: one additive insertion per procedure symbol,
/// module-relative offsets, length from the symbol itself.
pub open spec fn procedures_pass(
    code: SectionModel,
    procs: Seq<ProcedureInfo>,
    acc: Seq<FuncModel>,
) -> BuildOutcome
    decreases procs.len(),
{
    if procs.len() == 0 {
        BuildOutcome::Built(acc)
    } else {
        match additive_insert(code, acc, procs[0].name@, procs[0].offset, procs[0].len) {
            BuildOutcome::Built(acc2) => procedures_pass(code, procs.drop_first(), acc2),
            other => other,
        }
    }
}

/// The public-symbol pass: one additive insertion per public symbol flagged
/// as a function, with the length taken from the mapping's size hint.
pub open spec fn publics_pass(
    code: SectionModel,
    publics: Seq<PublicInfo>,
    defs: Seq<DefModel>,
    acc: Seq<FuncModel>,
) -> BuildOutcome
    decreases publics.len(),
{
    if publics.len() == 0 {
        BuildOutcome::Built(acc)
    } else if !publics[0].is_function {
        publics_pass(code, publics.drop_first(), defs, acc)
    } else {
        match additive_insert(
            code,
            acc,
            publics[0].name@,
            publics[0].offset,
            size_hint_of(defs, publics[0].name@),
        ) {
            BuildOutcome::Built(acc2) => publics_pass(code, publics.drop_first(), defs, acc2),
            other => other,
        }
    }
}

/// One insertion of the mapping pass: absolute address, declared size; a
/// zero-size entry is never materialized, a name already present keeps the
/// earlier entry.
pub open spec fn mapping_insert(
    code: SectionModel,
    acc: Seq<FuncModel>,
    name: Seq<char>,
    address: usize,
    size: usize,
) -> BuildOutcome {
    if !slice_ok(code, address, size) {
        BuildOutcome::OutOfBounds(address, size)
    } else if size == 0 {
        BuildOutcome::Built(acc)
    } else if contains_name(acc, name) {
        BuildOutcome::Built(acc)
    } else {
        BuildOutcome::Built(
            acc.push(FuncModel { name, address, data: slice_at(code, address, size) }),
        )
    }
}

/// The mapping pass: one insertion per named entry; entries without a name
/// are inert.
pub open spec fn mapping_pass(
    code: SectionModel,
    defs: Seq<DefModel>,
    acc: Seq<FuncModel>,
) -> BuildOutcome
    decreases defs.len(),
{
    if defs.len() == 0 {
        BuildOutcome::Built(acc)
    } else {
        match defs[0].name {
            None => mapping_pass(code, defs.drop_first(), acc),
            Some(n) => match mapping_insert(code, acc, n, defs[0].address, defs[0].size) {
                BuildOutcome::Built(acc2) => mapping_pass(code, defs.drop_first(), acc2),
                other => other,
            },
        }
    }
}

/// Number of symbols that the primary pass materializes: code symbols of
/// nonzero size.
pub open spec fn count_primary(syms: Seq<SymbolInfo>) -> int
    decreases syms.len(),
{
    if syms.len() == 0 {
        0
    } else {
        count_primary(syms.drop_first()) + if syms[0].is_code && syms[0].size != 0 {
            1int
        } else {
            0int
        }
    }
}

/// A successful primary pass adds exactly one function per code symbol of
/// nonzero size: zero-size symbols never appear in the table, and so never
/// count toward the number of functions.
pub proof fn lemma_primary_pass_count(
    code: SectionModel,
    syms: Seq<SymbolInfo>,
    acc: Seq<FuncModel>,
)
    ensures
        primary_pass(code, syms, acc) matches BuildOutcome::Built(t) ==> t.len() == acc.len()
            + count_primary(syms),
    decreases syms.len(),
{
    if syms.len() > 0 {
        let s = syms[0];
        if !s.is_code || s.size == 0 {
            lemma_primary_pass_count(code, syms.drop_first(), acc);
        } else {
            match s.name {
                Err(_) => {},
                Ok(n) => {
                    if slice_ok(code, s.address, s.size) && !contains_name(acc, n@) {
                        lemma_primary_pass_count(
                            code,
                            syms.drop_first(),
                            acc.push(
                                FuncModel {
                                    name: n@,
                                    address: s.address,
                                    data: slice_at(code, s.address, s.size),
                                },
                            ),
                        );
                    }
                },
            }
        }
    }
}

/// The name a symbol carries, where it has a readable one.
pub open spec fn symbol_name(s: SymbolInfo) -> Seq<char> {
    match s.name {
        Ok(n) => n@,
        Err(_) => Seq::empty(),
    }
}

/// Outcome of the object+mapping pipeline over the extracted values: the
/// primary pass, then the mapping pass over what it built.
pub open spec fn object_mapping_outcome(
    code: SectionModel,
    syms: Seq<SymbolInfo>,
    defs: Seq<DefModel>,
) -> BuildOutcome {
    match primary_pass(code, syms, Seq::empty()) {
        BuildOutcome::Built(t) => mapping_pass(code, defs, t),
        other => other,
    }
}

/// Outcome of the object+debug-info pipeline over the extracted values:
/// the primary pass, then the procedure pass, then the public-symbol pass.
pub open spec fn object_pdb_outcome(
    code: SectionModel,
    syms: Seq<SymbolInfo>,
    procs: Seq<ProcedureInfo>,
    publics: Seq<PublicInfo>,
    defs: Seq<DefModel>,
) -> BuildOutcome {
    match primary_pass(code, syms, Seq::empty()) {
        BuildOutcome::Built(t1) => match procedures_pass(code, procs, t1) {
            BuildOutcome::Built(t2) => publics_pass(code, publics, defs, t2),
            other => other,
        },
        other => other,
    }
}

/// A name already in the table is never built over by the primary pass: it
/// stops with a fault before or at the code symbol that carries the name.
pub proof fn lemma_primary_known_name_never_builds(
    code: SectionModel,
    syms: Seq<SymbolInfo>,
    acc: Seq<FuncModel>,
    k: int,
)
    requires
        0 <= k < syms.len(),
        syms[k].is_code && syms[k].size != 0,
        syms[k].name is Ok,
        contains_name(acc, symbol_name(syms[k])),
    ensures
        !(primary_pass(code, syms, acc) matches BuildOutcome::Built(_)),
    decreases syms.len(),
{
    let s = syms[0];
    if !s.is_code || s.size == 0 {
        assert(syms.drop_first()[k - 1] == syms[k]);
        lemma_primary_known_name_never_builds(code, syms.drop_first(), acc, k - 1);
    } else {
        match s.name {
            Err(_) => {},
            Ok(n0) => {
                if slice_ok(code, s.address, s.size) && !contains_name(acc, n0@) {
                    assert(k != 0);
                    let acc2 = acc.push(
                        FuncModel {
                            name: n0@,
                            address: s.address,
                            data: slice_at(code, s.address, s.size),
                        },
                    );
                    let i = choose|i: int|
                        0 <= i < acc.len() && acc[i].name == symbol_name(syms[k]);
                    assert(acc2[i] == acc[i]);
                    assert(contains_name(acc2, symbol_name(syms[k])));
                    assert(syms.drop_first()[k - 1] == syms[k]);
                    lemma_primary_known_name_never_builds(code, syms.drop_first(), acc2, k - 1);
                }
            },
        }
    }
}

/// A genuine duplicate among the primary code symbols — two code symbols
/// of nonzero size sharing one readable name — never yields a built table:
/// the primary pass always stops with a fault, whatever else the symbol
/// table holds.
pub proof fn lemma_duplicate_primary_symbol_never_builds(
    code: SectionModel,
    syms: Seq<SymbolInfo>,
    acc: Seq<FuncModel>,
    i: int,
    j: int,
)
    requires
        0 <= i < j < syms.len(),
        syms[i].is_code && syms[i].size != 0,
        syms[j].is_code && syms[j].size != 0,
        syms[i].name is Ok,
        syms[j].name is Ok,
        symbol_name(syms[i]) == symbol_name(syms[j]),
    ensures
        !(primary_pass(code, syms, acc) matches BuildOutcome::Built(_)),
    decreases syms.len(),
{
    let s = syms[0];
    if !s.is_code || s.size == 0 {
        assert(syms.drop_first()[i - 1] == syms[i]);
        assert(syms.drop_first()[j - 1] == syms[j]);
        lemma_duplicate_primary_symbol_never_builds(code, syms.drop_first(), acc, i - 1, j - 1);
    } else {
        match s.name {
            Err(_) => {},
            Ok(n0) => {
                if slice_ok(code, s.address, s.size) && !contains_name(acc, n0@) {
                    let acc2 = acc.push(
                        FuncModel {
                            name: n0@,
                            address: s.address,
                            data: slice_at(code, s.address, s.size),
                        },
                    );
                    assert(syms.drop_first()[j - 1] == syms[j]);
                    if i == 0 {
                        assert(acc2[acc.len() as int].name == symbol_name(syms[j]));
                        assert(contains_name(acc2, symbol_name(syms[j])));
                        lemma_primary_known_name_never_builds(
                            code,
                            syms.drop_first(),
                            acc2,
                            j - 1,
                        );
                    } else {
                        assert(syms.drop_first()[i - 1] == syms[i]);
                        lemma_duplicate_primary_symbol_never_builds(
                            code,
                            syms.drop_first(),
                            acc2,
                            i - 1,
                            j - 1,
                        );
                    }
                }
            },
        }
    }
}

/// Copies `bytes[offset .. offset + len]` into a fresh vector.
fn extract_range(bytes: &Vec<u8>, offset: usize, len: usize) -> (r: Vec<u8>)
    requires
        offset + len <= bytes@.len(),
    ensures
        r@ == bytes@.subrange(offset as int, offset as int + len as int),
{
    let n = bytes.len();
    let mut r: Vec<u8> = Vec::new();
    proof {
        assert(r@ =~= bytes@.subrange(offset as int, offset as int));
    }
    let mut i: usize = 0;
    while i < len
        invariant
            offset + len <= n == bytes@.len(),
            0 <= i <= len,
            r@ == bytes@.subrange(offset as int, offset as int + i as int),
        decreases len - i,
    {
        r.push(bytes[offset + i]);
        proof {
            assert(bytes@.subrange(offset as int, offset as int + i as int + 1)
                =~= bytes@.subrange(offset as int, offset as int + i as int).push(
                bytes@[offset + i],
            ));
        }
        i = i + 1;
    }
    r
}

impl Executable {
    /// One additive insertion from debug info: slices
    /// `text_data[offset .. offset + len]`, inserts it at address
    /// `text_section_address + offset`, and treats both a zero length and a
    /// name already present as "keep what is there, continue". An
    /// out-of-bounds range is reported with its section-relative offset.
    pub fn add_function_from_pdb(
        &mut self,
        text_section_address: usize,
        text_data: &Vec<u8>,
        name: String,
        offset: usize,
        len: usize,
    ) -> (r: Result<(), ExecutableError>)
        requires
            old(self).wf(),
        ensures
            final(self).wf(),
            match additive_insert(
                SectionModel { base: text_section_address, bytes: text_data@ },
                old(self)@,
                name@,
                offset,
                len,
            ) {
                BuildOutcome::Built(t) => r is Ok && final(self)@ == t,
                BuildOutcome::OutOfBounds(a, s) => final(self)@ == old(self)@ && (r matches Err(e)
                    && e.is_oob_for(a, s)),
                _ => false,
            },
    {
        if len == 0 {
            return Ok(());
        }
        if !(offset <= text_data.len() && len <= text_data.len() - offset
            && text_section_address <= usize::MAX - offset) {
            return Err(ExecutableError::OutOfBoundsSlice { address: offset, size: len });
        }
        let data = extract_range(text_data, offset, len);
        match self.add_function(name, text_section_address + offset, data) {
            Ok(()) => Ok(()),
            Err(ExecutableError::FunctionNameConflict { function_name: _ }) => Ok(()),
            Err(e) => Err(e),
        }
    }

    /// The primary pass over plain extracted values: seeds a fresh table
    /// from the object file's code symbols of nonzero size. Without a code
    /// section the table is legitimately empty.
    pub fn from_primary_symbols(code: &Option<CodeSection>, symbols: Vec<SymbolInfo>) -> (r:
        Result<Executable, ExecutableError>)
        ensures
            match r {
                Ok(exe) => exe.wf() && match *code {
                    Some(cs) => primary_pass(cs@, symbols@, Seq::empty()) == BuildOutcome::Built(
                        exe@,
                    ),
                    None => exe@ == Seq::<FuncModel>::empty(),
                },
                Err(e) => *code matches Some(cs) && match primary_pass(
                    cs@,
                    symbols@,
                    Seq::empty(),
                ) {
                    BuildOutcome::Conflict(n) => e.is_conflict_for(n),
                    BuildOutcome::OutOfBounds(a, s) => e.is_oob_for(a, s),
                    BuildOutcome::UnreadableName => e matches ExecutableError::ObjectError { .. },
                    BuildOutcome::Built(_) => false,
                },
            },
    {
        let section = match code {
            Some(cs) => cs,
            None => {
                return Ok(Executable::default());
            },
        };
        let ghost cs = section@;
        let ghost syms0 = symbols@;
        let mut res = Executable::default();
        proof {
            assert(syms0.skip(0) =~= syms0);
        }
        let mut k: usize = 0;
        while k < symbols.len()
            invariant
                0 <= k <= symbols@.len(),
                symbols@ == syms0,
                cs == section@,
                *code matches Some(c) && c@ == cs,
                res.wf(),
                primary_pass(cs, syms0, Seq::empty()) == primary_pass(
                    cs,
                    syms0.skip(k as int),
                    res@,
                ),
            decreases symbols@.len() - k,
        {
            proof {
                assert(syms0.skip(k as int)[0] == syms0[k as int]);
                assert(syms0.skip(k as int).drop_first() =~= syms0.skip(k as int + 1));
            }
            if symbols[k].is_code && symbols[k].size != 0 {
                let name = match &symbols[k].name {
                    Ok(n) => n.clone(),
                    Err(e) => {
                        return Err(ExecutableError::ObjectError { error: copy_object_error(e) });
                    },
                };
                let address = symbols[k].address;
                let size = symbols[k].size;
                if !(address >= section.base && address - section.base <= section.bytes.len()
                    && size <= section.bytes.len() - (address - section.base)) {
                    return Err(ExecutableError::OutOfBoundsSlice { address, size });
                }
                let data = extract_range(&section.bytes, address - section.base, size);
                match res.add_function(name, address, data) {
                    Ok(()) => {},
                    Err(e) => {
                        return Err(e);
                    },
                }
            }
            k = k + 1;
        }
        proof {
            assert(syms0.skip(symbols@.len() as int) =~= Seq::<SymbolInfo>::empty());
        }
        Ok(res)
    }

    /// The debug-procedure pass over plain extracted values: adds every
    /// procedure symbol of nonzero length that brings a new name.
    pub fn apply_debug_procedures(&mut self, code: &CodeSection, procs: &Vec<ProcedureInfo>) -> (r:
        Result<(), ExecutableError>)
        requires
            old(self).wf(),
        ensures
            final(self).wf(),
            match r {
                Ok(()) => procedures_pass(code@, procs@, old(self)@) == BuildOutcome::Built(
                    final(self)@,
                ),
                Err(e) => match procedures_pass(code@, procs@, old(self)@) {
                    BuildOutcome::OutOfBounds(a, s) => e.is_oob_for(a, s),
                    _ => false,
                },
            },
    {
        let ghost procs0 = procs@;
        let ghost start = self@;
        proof {
            assert(procs0.skip(0) =~= procs0);
        }
        let mut k: usize = 0;
        while k < procs.len()
            invariant
                0 <= k <= procs@.len(),
                procs@ == procs0,
                start == old(self)@,
                self.wf(),
                procedures_pass(code@, procs0, start) == procedures_pass(
                    code@,
                    procs0.skip(k as int),
                    self@,
                ),
            decreases procs@.len() - k,
        {
            proof {
                assert(procs0.skip(k as int)[0] == procs0[k as int]);
                assert(procs0.skip(k as int).drop_first() =~= procs0.skip(k as int + 1));
            }
            match self.add_function_from_pdb(
                code.base,
                &code.bytes,
                procs[k].name.clone(),
                procs[k].offset,
                procs[k].len,
            ) {
                Ok(()) => {},
                Err(e) => {
                    return Err(e);
                },
            }
            k = k + 1;
        }
        proof {
            assert(procs0.skip(procs@.len() as int) =~= Seq::<ProcedureInfo>::empty());
        }
        Ok(())
    }

    /// The public-symbol pass over plain extracted values: adds every
    /// public symbol flagged as a function, sized by the mapping's hint; a
    /// name the mapping does not size is skipped.
    pub fn apply_public_symbols(
        &mut self,
        code: &CodeSection,
        publics: &Vec<PublicInfo>,
        mapping: &Mapping,
    ) -> (r: Result<(), ExecutableError>)
        requires
            old(self).wf(),
        ensures
            final(self).wf(),
            match r {
                Ok(()) => publics_pass(code@, publics@, mapping.defs(), old(self)@)
                    == BuildOutcome::Built(final(self)@),
                Err(e) => match publics_pass(code@, publics@, mapping.defs(), old(self)@) {
                    BuildOutcome::OutOfBounds(a, s) => e.is_oob_for(a, s),
                    _ => false,
                },
            },
    {
        let ghost pubs0 = publics@;
        let ghost start = self@;
        proof {
            assert(pubs0.skip(0) =~= pubs0);
        }
        let mut k: usize = 0;
        while k < publics.len()
            invariant
                0 <= k <= publics@.len(),
                publics@ == pubs0,
                start == old(self)@,
                self.wf(),
                publics_pass(code@, pubs0, mapping.defs(), start) == publics_pass(
                    code@,
                    pubs0.skip(k as int),
                    mapping.defs(),
                    self@,
                ),
            decreases publics@.len() - k,
        {
            proof {
                assert(pubs0.skip(k as int)[0] == pubs0[k as int]);
                assert(pubs0.skip(k as int).drop_first() =~= pubs0.skip(k as int + 1));
            }
            if publics[k].is_function {
                let len: usize = match mapping.get_function_def(publics[k].name.as_str()) {
                    Some(d) => d.size,
                    None => 0,
                };
                match self.add_function_from_pdb(
                    code.base,
                    &code.bytes,
                    publics[k].name.clone(),
                    publics[k].offset,
                    len,
                ) {
                    Ok(()) => {},
                    Err(e) => {
                        return Err(e);
                    },
                }
            }
            k = k + 1;
        }
        proof {
            assert(pubs0.skip(publics@.len() as int) =~= Seq::<PublicInfo>::empty());
        }
        Ok(())
    }

    /// The mapping pass over the declared entries: adds every named entry
    /// of nonzero size that brings a new name; a declared name that
    /// collides with a primary symbol does not override it.
    pub fn apply_mapping(&mut self, code: &CodeSection, mapping: &Mapping) -> (r: Result<
        (),
        ExecutableError,
    >)
        requires
            old(self).wf(),
        ensures
            final(self).wf(),
            match r {
                Ok(()) => mapping_pass(code@, mapping.defs(), old(self)@) == BuildOutcome::Built(
                    final(self)@,
                ),
                Err(e) => match mapping_pass(code@, mapping.defs(), old(self)@) {
                    BuildOutcome::OutOfBounds(a, s) => e.is_oob_for(a, s),
                    _ => false,
                },
            },
    {
        let defs_vec = match &mapping.function {
            Some(v) => v,
            None => {
                proof {
                    assert(mapping.defs() =~= Seq::<DefModel>::empty());
                }
                return Ok(());
            },
        };
        let ghost defs0 = mapping.defs();
        let ghost start = self@;
        proof {
            assert(defs0.skip(0) =~= defs0);
        }
        let mut k: usize = 0;
        while k < defs_vec.len()
            invariant
                0 <= k <= defs_vec@.len(),
                defs0 == mapping.defs(),
                defs0.len() == defs_vec@.len(),
                forall|j: int| 0 <= j < defs0.len() ==> defs0[j] == defs_vec@[j]@,
                start == old(self)@,
                self.wf(),
                mapping_pass(code@, defs0, start) == mapping_pass(
                    code@,
                    defs0.skip(k as int),
                    self@,
                ),
            decreases defs_vec@.len() - k,
        {
            proof {
                assert(defs0.skip(k as int)[0] == defs0[k as int]);
                assert(defs0.skip(k as int).drop_first() =~= defs0.skip(k as int + 1));
            }
            if let Some(nm) = &defs_vec[k].name {
                let address = defs_vec[k].address;
                let size = defs_vec[k].size;
                if !(address >= code.base && address - code.base <= code.bytes.len()
                    && size <= code.bytes.len() - (address - code.base)) {
                    return Err(ExecutableError::OutOfBoundsSlice { address, size });
                }
                if size != 0 {
                    let data = extract_range(&code.bytes, address - code.base, size);
                    match self.add_function(nm.clone(), address, data) {
                        Ok(()) => {},
                        Err(ExecutableError::FunctionNameConflict { function_name: _ }) => {},
                        Err(e) => {
                            return Err(e);
                        },
                    }
                }
            }
            k = k + 1;
        }
        proof {
            assert(defs0.skip(defs_vec@.len() as int) =~= Seq::<DefModel>::empty());
        }
        Ok(())
    }

    /// Builds a table from the object file's own exported code symbols: on
    /// success, exactly the table the primary pass builds over what the
    /// object reader finds in the file; empty when the file has no code
    /// section. An error is the reader's own, or the pass fault — a
    /// duplicate name or an out-of-bounds range.
    pub fn from_object<'data>(raw_obj: &ObjectFile<'data>) -> (r: Result<
        Executable,
        ExecutableError,
    >)
        ensures
            r matches Ok(exe) ==> exe.wf() && (match crate::sources::text_section_of(raw_obj) {
                Some(cs) => primary_pass(cs, crate::sources::symbols_of(raw_obj), Seq::empty())
                    == BuildOutcome::Built(exe@),
                None => exe@ == Seq::<FuncModel>::empty(),
            }),
            r matches Err(e) ==> (e matches ExecutableError::ObjectError { .. }) || (
            match crate::sources::text_section_of(raw_obj) {
                Some(cs) => match primary_pass(
                    cs,
                    crate::sources::symbols_of(raw_obj),
                    Seq::empty(),
                ) {
                    BuildOutcome::Conflict(n) => e.is_conflict_for(n),
                    BuildOutcome::OutOfBounds(a, s) => e.is_oob_for(a, s),
                    _ => false,
                },
                None => false,
            }),
    {
        let code = match read_text_section(raw_obj) {
            Ok(c) => c,
            Err(error) => {
                return Err(ExecutableError::ObjectError { error });
            },
        };
        let symbols = read_symbols(raw_obj);
        Executable::from_primary_symbols(&code, symbols)
    }

    /// Builds a table from the object file's code symbols, then adds the
    /// PDB's per-module procedure symbols, then its global public function
    /// symbols sized via `mapping`: on success, exactly the outcome of the
    /// three passes composed over what the two readers find; empty when
    /// the file has no code section, the debug info then never read. An
    /// error is one of the readers' own, or a pass fault.
    pub fn from_object_with_pdb<'data>(
        raw_obj: &ObjectFile<'data>,
        mapping: Mapping,
        pdb_file: PdbFile,
    ) -> (r: Result<Executable, ExecutableError>)
        ensures
            r matches Ok(exe) ==> exe.wf() && (match crate::sources::text_section_of(raw_obj) {
                Some(cs) => object_pdb_outcome(
                    cs,
                    crate::sources::symbols_of(raw_obj),
                    crate::sources::procedures_of(pdb_file),
                    crate::sources::publics_of(pdb_file),
                    mapping.defs(),
                ) == BuildOutcome::Built(exe@),
                None => exe@ == Seq::<FuncModel>::empty(),
            }),
            r matches Err(e) ==> (e matches ExecutableError::ObjectError { .. }) || (e matches
                ExecutableError::PdbError { .. }) || (match crate::sources::text_section_of(
                raw_obj,
            ) {
                Some(cs) => match object_pdb_outcome(
                    cs,
                    crate::sources::symbols_of(raw_obj),
                    crate::sources::procedures_of(pdb_file),
                    crate::sources::publics_of(pdb_file),
                    mapping.defs(),
                ) {
                    BuildOutcome::Conflict(n) => e.is_conflict_for(n),
                    BuildOutcome::OutOfBounds(a, s) => e.is_oob_for(a, s),
                    _ => false,
                },
                None => false,
            }),
    {
        let mut pdb_file = pdb_file;
        let code_opt = match read_text_section(raw_obj) {
            Ok(c) => c,
            Err(error) => {
                return Err(ExecutableError::ObjectError { error });
            },
        };
        let symbols = read_symbols(raw_obj);
        let mut res = match Executable::from_primary_symbols(&code_opt, symbols) {
            Ok(e) => e,
            Err(e) => {
                return Err(e);
            },
        };
        if let Some(code) = &code_opt {
            let procs = match read_procedures(&mut pdb_file) {
                Ok(p) => p,
                Err(error) => {
                    return Err(ExecutableError::PdbError { error });
                },
            };
            match res.apply_debug_procedures(code, &procs) {
                Ok(()) => {},
                Err(e) => {
                    return Err(e);
                },
            }
            let publics = match read_publics(&mut pdb_file) {
                Ok(p) => p,
                Err(error) => {
                    return Err(ExecutableError::PdbError { error });
                },
            };
            match res.apply_public_symbols(code, &publics, &mapping) {
                Ok(()) => {},
                Err(e) => {
                    return Err(e);
                },
            }
        }
        Ok(res)
    }

    /// Builds a table from the object file's code symbols, then adds the
    /// mapping's named entries: on success, exactly the outcome of the
    /// primary and mapping passes composed over what the object reader
    /// finds; empty when the file has no code section. An error is the
    /// reader's own, or a pass fault.
    pub fn from_object_with_mapping<'data>(raw_obj: &ObjectFile<'data>, mapping: Mapping) -> (r:
        Result<Executable, ExecutableError>)
        ensures
            r matches Ok(exe) ==> exe.wf() && (match crate::sources::text_section_of(raw_obj) {
                Some(cs) => object_mapping_outcome(
                    cs,
                    crate::sources::symbols_of(raw_obj),
                    mapping.defs(),
                ) == BuildOutcome::Built(exe@),
                None => exe@ == Seq::<FuncModel>::empty(),
            }),
            r matches Err(e) ==> (e matches ExecutableError::ObjectError { .. }) || (
            match crate::sources::text_section_of(raw_obj) {
                Some(cs) => match object_mapping_outcome(
                    cs,
                    crate::sources::symbols_of(raw_obj),
                    mapping.defs(),
                ) {
                    BuildOutcome::Conflict(n) => e.is_conflict_for(n),
                    BuildOutcome::OutOfBounds(a, s) => e.is_oob_for(a, s),
                    _ => false,
                },
                None => false,
            }),
    {
        let code_opt = match read_text_section(raw_obj) {
            Ok(c) => c,
            Err(error) => {
                return Err(ExecutableError::ObjectError { error });
            },
        };
        let symbols = read_symbols(raw_obj);
        let mut res = match Executable::from_primary_symbols(&code_opt, symbols) {
            Ok(e) => e,
            Err(e) => {
                return Err(e);
            },
        };
        if let Some(code) = &code_opt {
            match res.apply_mapping(code, &mapping) {
                Ok(()) => {},
                Err(e) => {
                    return Err(e);
                },
            }
        }
        Ok(res)
    }
}

} // verus!
