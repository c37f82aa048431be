use vstd::prelude::*;

verus! {

/// Ghost image of a [`FunctionDef`].
pub ghost struct DefModel {
    pub name: Option<Seq<char>>,
    pub address: usize,
    pub size: usize,
}

/// A user-declared function range: an optional name, an absolute load
/// address and a size in bytes.
///
/// Entries without a name are inert for the table builders; they exist for
/// other consumers of the same declaration file.
#[derive(Clone, Debug)]
pub struct FunctionDef {
    pub name: Option<String>,
    pub address: usize,
    pub size: usize,
}

impl View for FunctionDef {
    type V = DefModel;

    open spec fn view(&self) -> DefModel {
        DefModel {
            name: match self.name {
                Some(s) => Some(s@),
                None => None,
            },
            address: self.address,
            size: self.size,
        }
    }
}

/// The first entry of `defs` that carries a name equal to `name`.
pub open spec fn find_def(defs: Seq<DefModel>, name: Seq<char>) -> Option<DefModel>
    decreases defs.len(),
{
    if defs.len() == 0 {
        None
    } else if defs[0].name matches Some(n) && n == name {
        Some(defs[0])
    } else {
        find_def(defs.drop_first(), name)
    }
}

/// Size hint that declared entries give for `name`: the size of the first
/// entry declared under that name, or 0 — meaning "no size known" — when
/// there is none.
pub open spec fn size_hint_of(defs: Seq<DefModel>, name: Seq<char>) -> usize {
    match find_def(defs, name) {
        Some(d) => d.size,
        None => 0,
    }
}

/// An ordered, user-declared table of function ranges, used both as a
/// standalone source of functions and as a size hint for debug-info public
/// symbols that carry no length.
#[derive(Clone, Debug)]
pub struct Mapping {
    pub function: Option<Vec<FunctionDef>>,
}

impl Mapping {
    /// The declared entries as the table builders see them: an absent list
    /// reads the same as an empty one.
    pub open spec fn defs(self) -> Seq<DefModel> {
        match self.function {
            Some(v) => v@.map(|i: int, d: FunctionDef| d@),
            None => Seq::empty(),
        }
    }

    /// Looks `name` up among the declared entries; the first entry declared
    /// under that name wins.
    pub fn get_function_def(&self, name: &str) -> (r: Option<&FunctionDef>)
        ensures
            match r {
                Some(d) => find_def(self.defs(), name@) == Some(d@),
                None => find_def(self.defs(), name@) is None,
            },
    {
        let key: String = name.to_owned();
        if let Some(function) = &self.function {
            let ghost defs = self.defs();
            proof {
                assert(defs.skip(0) =~= defs);
            }
            let mut i: usize = 0;
            while i < function.len()
                invariant
                    0 <= i <= function.len(),
                    defs == self.defs(),
                    defs.len() == function@.len(),
                    forall|j: int| 0 <= j < defs.len() ==> defs[j] == function@[j]@,
                    key@ == name@,
                    find_def(defs, name@) == find_def(defs.skip(i as int), name@),
                    self.function matches Some(v) && v@ == function@,
                decreases function.len() - i,
            {
                proof {
                    assert(defs.skip(i as int)[0] == defs[i as int]);
                    assert(defs.skip(i as int).drop_first() =~= defs.skip(i as int + 1));
                }
                if let Some(f_name) = &function[i].name {
                    if *f_name == key {
                        return Some(&function[i]);
                    }
                }
                i = i + 1;
            }
        }
        None
    }
}

} // verus!
