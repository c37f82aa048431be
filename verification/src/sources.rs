use vstd::prelude::*;

use object::{Object, ObjectSection, ObjectSymbol};
use pdb::FallibleIterator;

verus! {

/// The `object` crate's parsed object file. Opaque to the verifier: the
/// extraction wrappers below read the code section and the symbol table out
/// of it, and everything after that is verified over those plain values.
#[verifier::external_body]
pub struct ObjectFile<'data> {
    inner: object::File<'data>,
}

impl<'data> ObjectFile<'data> {
    /// Relies on object's `File::parse`: parses raw object-file bytes into
    /// the reader's handle, or fails on a malformed container.
    #[verifier::external_body]
    pub fn parse(data: &'data [u8]) -> (r: Result<ObjectFile<'data>, object::Error>) {
        match object::File::parse(data) {
            Ok(f) => Ok(ObjectFile { inner: f }),
            Err(e) => Err(e),
        }
    }
}

/// The `pdb` crate's debug-info file over an in-memory buffer, opaque to
/// the verifier.
#[verifier::external_body]
pub struct PdbFile {
    inner: pdb::PDB<'static, std::io::Cursor<Vec<u8>>>,
}

impl PdbFile {
    /// Relies on pdb's `PDB::open` over an in-memory reader: parses the
    /// debug-info container's header, or fails on a malformed file.
    #[verifier::external_body]
    pub fn open(data: Vec<u8>) -> (r: Result<PdbFile, pdb::Error>) {
        match pdb::PDB::open(std::io::Cursor::new(data)) {
            Ok(p) => Ok(PdbFile { inner: p }),
            Err(e) => Err(e),
        }
    }
}

/// Ghost image of a [`CodeSection`].
pub ghost struct SectionModel {
    pub base: usize,
    pub bytes: Seq<u8>,
}

/// The code (`.text`) section of an object file: its base load address and
/// its raw contents.
#[derive(Clone, Debug)]
pub struct CodeSection {
    pub base: usize,
    pub bytes: Vec<u8>,
}

impl View for CodeSection {
    type V = SectionModel;

    open spec fn view(&self) -> SectionModel {
        SectionModel { base: self.base, bytes: self.bytes@ }
    }
}

/// One entry of the object file's symbol table. The name stays exactly as
/// the object reader reported it: a name it could not decode remains an
/// error, surfaced only if a code symbol of nonzero size turns out to need
/// it.
#[derive(Debug)]
pub struct SymbolInfo {
    pub name: Result<String, object::Error>,
    pub address: usize,
    pub size: usize,
    pub is_code: bool,
}

/// One procedure symbol of a PDB module: name, module-relative code offset,
/// length of the covered code block.
#[derive(Clone, Debug)]
pub struct ProcedureInfo {
    pub name: String,
    pub offset: usize,
    pub len: usize,
}

/// One global public symbol of a PDB: name, section-relative offset, and
/// whether the symbol is flagged as a function.
#[derive(Clone, Debug)]
pub struct PublicInfo {
    pub name: String,
    pub offset: usize,
    pub is_function: bool,
}

/// The code (`.text`) section that the object reader finds in this parsed
/// file, if any. A parsed object file is immutable, so what the reader
/// returns is a function of the handle alone.
pub uninterp spec fn text_section_of(obj: &ObjectFile<'_>) -> Option<SectionModel>;

/// The object file's symbol table as the reader walks it: one entry per
/// symbol, in the reader's iteration order, which is fixed by the file's
/// contents.
pub uninterp spec fn symbols_of(obj: &ObjectFile<'_>) -> Seq<SymbolInfo>;

/// The procedure symbols of every module of this PDB, in stream order: a
/// function of the in-memory file contents alone.
pub uninterp spec fn procedures_of(pdb_file: PdbFile) -> Seq<ProcedureInfo>;

/// The global public symbols of this PDB, in stream order: a function of
/// the in-memory file contents alone.
pub uninterp spec fn publics_of(pdb_file: PdbFile) -> Seq<PublicInfo>;

/// Relies on object's `Object::section_by_name(".text")`,
/// `ObjectSection::address` and `ObjectSection::data`: the code section's
/// base address and raw bytes, `None` when the file has no `.text` section,
/// or the reader's error when the section's contents cannot be read.
#[verifier::external_body]
pub fn read_text_section<'data>(obj: &ObjectFile<'data>) -> (r: Result<
    Option<CodeSection>,
    object::Error,
>)
    ensures
        r matches Ok(c) ==> match c {
            Some(cs) => text_section_of(obj) == Some(cs@),
            None => text_section_of(obj) is None,
        },
{
    match obj.inner.section_by_name(".text") {
        None => Ok(None),
        Some(sec) => {
            let base = sec.address() as usize;
            match sec.data() {
                Ok(d) => Ok(Some(CodeSection { base, bytes: d.to_vec() })),
                Err(e) => Err(e),
            }
        },
    }
}

/// Relies on object's `Object::symbols` iteration and `ObjectSymbol::{name,
/// address, size, kind}`: one entry per symbol of the object file, in the
/// reader's iteration order, with `is_code` set exactly for
/// `SymbolKind::Text` symbols.
#[verifier::external_body]
pub fn read_symbols<'data>(obj: &ObjectFile<'data>) -> (r: Vec<SymbolInfo>)
    ensures
        r@ == symbols_of(obj),
{
    let mut v = Vec::new();
    for sym in obj.inner.symbols() {
        v.push(
            SymbolInfo {
                name: sym.name().map(|n| n.to_string()),
                address: sym.address() as usize,
                size: sym.size() as usize,
                is_code: matches!(sym.kind(), object::SymbolKind::Text),
            },
        );
    }
    v
}

/// Relies on pdb's `PDB::debug_information`, `DebugInformation::modules`,
/// `PDB::module_info`, `ModuleInfo::symbols` and `Symbol::parse`: every
/// symbol of every module that parses as a procedure, in stream order, with
/// its module-relative offset and code length. Symbols that parse as
/// anything else are not procedure symbols and are passed over. Reading
/// takes `&mut` only to memoize stream headers; the underlying contents,
/// and with them the results of this and every later read, stay what they
/// were.
#[verifier::external_body]
pub fn read_procedures(pdb_file: &mut PdbFile) -> (r: Result<
    Vec<ProcedureInfo>,
    pdb::Error,
>)
    ensures
        r matches Ok(v) ==> v@ == procedures_of(*old(pdb_file)),
        procedures_of(*final(pdb_file)) == procedures_of(*old(pdb_file)),
        publics_of(*final(pdb_file)) == publics_of(*old(pdb_file)),
{
    let mut v = Vec::new();
    let dbi = pdb_file.inner.debug_information()?;
    let mut modules = dbi.modules()?;
    while let Some(module) = modules.next()? {
        if let Some(info) = pdb_file.inner.module_info(&module)? {
            let mut symbols = info.symbols()?;
            while let Some(symbol) = symbols.next()? {
                if let Ok(pdb::SymbolData::Procedure(p)) = symbol.parse() {
                    v.push(ProcedureInfo { name: p.name.to_string().into_owned(), offset: p.offset.offset as usize, len: p.len as usize });
                }
            }
        }
    }
    Ok(v)
}

/// Relies on pdb's `PDB::global_symbols`, `SymbolTable::iter` and
/// `Symbol::parse`: every global symbol that parses as a public symbol, in
/// stream order, with its section-relative offset and is-function flag.
/// Reading takes `&mut` only to memoize stream headers; the underlying
/// contents, and with them the results of this and every later read, stay
/// what they were.
#[verifier::external_body]
pub fn read_publics(pdb_file: &mut PdbFile) -> (r: Result<
    Vec<PublicInfo>,
    pdb::Error,
>)
    ensures
        r matches Ok(v) ==> v@ == publics_of(*old(pdb_file)),
        procedures_of(*final(pdb_file)) == procedures_of(*old(pdb_file)),
        publics_of(*final(pdb_file)) == publics_of(*old(pdb_file)),
{
    let table = pdb_file.inner.global_symbols()?;
    let mut symbols = table.iter();
    let mut v = Vec::new();
    while let Some(symbol) = symbols.next()? {
        if let Ok(pdb::SymbolData::Public(p)) = symbol.parse() {
            v.push(PublicInfo { name: p.name.to_string().into_owned(), offset: p.offset.offset as usize, is_function: p.function });
        }
    }
    Ok(v)
}

} // verus!
