use capstone::arch::x86::{ArchMode, ArchSyntax};
use capstone::prelude::{BuildsCapstone, BuildsCapstoneSyntax};
use capstone::Capstone;

use satsuki::disasm::DecodedInsn;
use satsuki::error::ExecutableError;
use satsuki::executable::Executable;
use satsuki::function::Function;
use satsuki::mapping::{FunctionDef, Mapping};
use satsuki::sources::{ObjectFile, PdbFile};

use object::write::{Object, Symbol, SymbolSection};
use object::{
    Architecture, BinaryFormat, Endianness, SectionKind, SymbolFlags, SymbolKind, SymbolScope,
};

fn mode32_capstone(att: bool) -> Capstone {
    Capstone::new()
        .x86()
        .mode(ArchMode::Mode32)
        .syntax(if att { ArchSyntax::Att } else { ArchSyntax::Intel })
        .detail(true)
        .build()
        .expect("Cannot create Capstone context")
}

fn func(name: &str, address: usize, data: Vec<u8>) -> Function {
    Function { name: name.to_string(), address, data }
}

#[test]
fn zero_bytes_at_address_zero_render_the_same_in_both_modes() {
    let ctx = mode32_capstone(false);
    let exe = Executable::default();
    let f = func("zeros", 0, vec![0, 0, 0, 0, 0, 0]);
    let plain = f.disassemble(&ctx, &exe, false, false).unwrap();
    let forced = f.disassemble(&ctx, &exe, true, false).unwrap();
    assert_eq!(plain, forced);
    assert!(!plain.is_empty());
}

#[test]
fn zero_bytes_at_address_zero_render_the_same_even_when_resolving() {
    let ctx = mode32_capstone(false);
    let exe = Executable::default();
    let f = func("zeros", 0, vec![0, 0, 0, 0]);
    let plain = f.disassemble(&ctx, &exe, false, true).unwrap();
    let forced = f.disassemble(&ctx, &exe, true, true).unwrap();
    assert_eq!(plain, forced);
}

#[test]
fn relative_call_to_known_function_resolves_to_its_name() {
    let ctx = mode32_capstone(false);
    let mut exe = Executable::default();
    exe.add_function("callee".to_string(), 0x1000, vec![0xc3]).unwrap();
    // call rel32 from 0x2000: next instruction at 0x2005, displacement
    // 0x1000 - 0x2005 = -0x1005.
    let caller = func("caller", 0x2000, vec![0xe8, 0xfb, 0xef, 0xff, 0xff]);
    let listing = caller.disassemble(&ctx, &exe, false, true).unwrap();
    assert_eq!(listing, "call callee\n");
}

#[test]
fn relative_call_to_unknown_target_falls_back_to_raw_operand() {
    let ctx = mode32_capstone(false);
    let exe = Executable::default();
    let caller = func("caller", 0x2000, vec![0xe8, 0xfb, 0xef, 0xff, 0xff]);
    let listing = caller.disassemble(&ctx, &exe, false, true).unwrap();
    assert_eq!(listing, "call 0x1000\n");
}

#[test]
fn resolution_only_happens_when_asked_for() {
    let ctx = mode32_capstone(false);
    let mut exe = Executable::default();
    exe.add_function("callee".to_string(), 0x1000, vec![0xc3]).unwrap();
    let caller = func("caller", 0x2000, vec![0xe8, 0xfb, 0xef, 0xff, 0xff]);
    let listing = caller.disassemble(&ctx, &exe, false, false).unwrap();
    assert_eq!(listing, "call 0x1000\n");
}

#[test]
fn render_listing_resolves_a_crafted_decoded_call() {
    let mut exe = Executable::default();
    exe.add_function("callee".to_string(), 0x1000, vec![0xc3]).unwrap();
    let caller = func("caller", 0x2000, vec![0xe8, 0xfb, 0xef, 0xff, 0xff]);
    let insn = DecodedInsn {
        mnemonic: Some("call".to_string()),
        op_str: Some("0x1000".to_string()),
        groups: vec!["call".to_string(), "branch_relative".to_string()],
        operands: vec![Some(0x1000)],
    };
    let resolved = caller.render_listing(&vec![insn.clone()], &exe, false, true);
    assert_eq!(resolved, "call callee\n");
    let raw = caller.render_listing(&vec![insn], &exe, false, false);
    assert_eq!(raw, "call 0x1000\n");
}

#[test]
fn instruction_without_mnemonic_is_omitted_from_the_listing() {
    let exe = Executable::default();
    let f = func("f", 0, vec![0x90]);
    let insn = DecodedInsn { mnemonic: None, op_str: None, groups: vec![], operands: vec![] };
    let nop = DecodedInsn {
        mnemonic: Some("nop".to_string()),
        op_str: Some("".to_string()),
        groups: vec![],
        operands: vec![],
    };
    let listing = f.render_listing(&vec![insn, nop], &exe, false, false);
    assert_eq!(listing, "nop \n");
}

#[test]
fn decoder_without_detail_support_reports_the_decoder_error() {
    let ctx = Capstone::new()
        .x86()
        .mode(ArchMode::Mode32)
        .syntax(ArchSyntax::Intel)
        .detail(false)
        .build()
        .expect("Cannot create Capstone context");
    let exe = Executable::default();
    let f = func("f", 0, vec![0x90]);
    let err = f.disassemble(&ctx, &exe, false, false).unwrap_err();
    assert!(matches!(err, ExecutableError::CapstoneError { .. }));
}

#[test]
fn att_and_intel_syntax_render_differently() {
    let intel = mode32_capstone(false);
    let att = mode32_capstone(true);
    let exe = Executable::default();
    let f = func("f", 0, vec![0xb8, 0x01, 0x00, 0x00, 0x00]);
    let intel_listing = f.disassemble(&intel, &exe, false, false).unwrap();
    let att_listing = f.disassemble(&att, &exe, false, false).unwrap();
    assert!(intel_listing.starts_with("mov "));
    assert!(att_listing.starts_with("mov"));
    assert_ne!(intel_listing, att_listing);
}

#[test]
fn malformed_object_bytes_are_rejected() {
    assert!(ObjectFile::parse(&[1, 2, 3, 4]).is_err());
}

#[test]
fn malformed_pdb_bytes_are_rejected() {
    assert!(PdbFile::open(vec![1, 2, 3, 4]).is_err());
}

#[test]
fn object_file_without_text_section_builds_an_empty_table() {
    let obj = Object::new(BinaryFormat::Elf, Architecture::I386, Endianness::Little);
    let bytes = obj.write().unwrap();
    let raw_obj = ObjectFile::parse(&bytes).unwrap();
    let exe = Executable::from_object(&raw_obj).unwrap();
    assert_eq!(exe.functions_count(), 0);
}

#[test]
fn from_object_with_mapping_adds_declared_ranges_of_a_real_object_file() {
    let mut obj = Object::new(BinaryFormat::Elf, Architecture::I386, Endianness::Little);
    let text = obj.add_section(Vec::new(), b".text".to_vec(), SectionKind::Text);
    obj.append_section_data(text, &[0x90, 0x90, 0xc3, 0xc3], 16);
    let bytes = obj.write().unwrap();

    let raw_obj = ObjectFile::parse(&bytes).unwrap();
    let mapping = Mapping {
        function: Some(vec![FunctionDef { name: Some("patched".to_string()), address: 1, size: 2 }]),
    };
    let exe = Executable::from_object_with_mapping(&raw_obj, mapping).unwrap();
    assert_eq!(exe.functions_count(), 1);
    let patched = exe.get_function(&"patched".to_string()).unwrap();
    assert_eq!(patched.address, 1);
    assert_eq!(patched.data, vec![0x90, 0xc3]);
}

#[test]
fn duplicate_exported_symbol_in_a_real_object_file_is_a_conflict() {
    let mut obj = Object::new(BinaryFormat::Elf, Architecture::I386, Endianness::Little);
    let text = obj.add_section(Vec::new(), b".text".to_vec(), SectionKind::Text);
    obj.append_section_data(text, &[0x90, 0x90, 0xc3, 0xc3], 16);
    for value in [0u64, 2u64] {
        obj.add_symbol(Symbol {
            name: b"twice".to_vec(),
            value,
            size: 2,
            kind: SymbolKind::Text,
            scope: SymbolScope::Linkage,
            weak: false,
            section: SymbolSection::Section(text),
            flags: SymbolFlags::None,
        });
    }
    let bytes = obj.write().unwrap();
    let raw_obj = ObjectFile::parse(&bytes).unwrap();
    let err = Executable::from_object(&raw_obj).unwrap_err();
    assert!(matches!(
        err,
        ExecutableError::FunctionNameConflict { ref function_name } if function_name == "twice"
    ));
}

#[test]
fn from_object_extracts_code_symbols_of_a_real_object_file() {
    let mut obj = Object::new(BinaryFormat::Elf, Architecture::I386, Endianness::Little);
    let text = obj.add_section(Vec::new(), b".text".to_vec(), SectionKind::Text);
    obj.append_section_data(text, &[0x90, 0x90, 0xc3, 0xc3], 16);
    obj.add_symbol(Symbol {
        name: b"foo".to_vec(),
        value: 0,
        size: 3,
        kind: SymbolKind::Text,
        scope: SymbolScope::Linkage,
        weak: false,
        section: SymbolSection::Section(text),
        flags: SymbolFlags::None,
    });
    obj.add_symbol(Symbol {
        name: b"empty".to_vec(),
        value: 3,
        size: 0,
        kind: SymbolKind::Text,
        scope: SymbolScope::Linkage,
        weak: false,
        section: SymbolSection::Section(text),
        flags: SymbolFlags::None,
    });
    let bytes = obj.write().unwrap();

    let raw_obj = ObjectFile::parse(&bytes).unwrap();
    let exe = Executable::from_object(&raw_obj).unwrap();
    assert_eq!(exe.functions_count(), 1);
    let foo = exe.get_function(&"foo".to_string()).unwrap();
    assert_eq!(foo.data, vec![0x90, 0x90, 0xc3]);
    assert!(exe.get_function(&"empty".to_string()).is_none());
}
